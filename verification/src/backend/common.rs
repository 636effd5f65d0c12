//! SQL emission shared by every dialect: fetch-by-id, fetch-all,
//! paginated fetch, full update, delete, per-field setters and lookups,
//! the partial-update statement, and the insert helper's shape.
//!
//! Every emitted operation is a pair of the statement's text and the
//! ordered list of argument expressions bound to its placeholders.

use vstd::prelude::*;

use crate::backend::{placeholder, spec_placeholder, Backend};
use crate::patch::{Patch, PatchV};
use crate::strutil::{join_strings, spec_join};
use crate::table::{
    spec_column, spec_column_list, spec_except_idx, spec_fmt_as_argument, spec_fmt_for_select,
    spec_insertable_idx, FieldV, Table, TableV,
};

verus! {

/// One emitted statement: its SQL text and the argument expressions
/// bound, in order, to its placeholders.
pub struct Operation {
    pub sql: String,
    pub args: Vec<String>,
}

/// Mathematical model of an emitted statement.
#[verifier::ext_equal]
pub ghost struct OperationV {
    pub sql: Seq<char>,
    pub args: Seq<Seq<char>>,
}

impl View for Operation {
    type V = OperationV;

    open spec fn view(&self) -> OperationV {
        OperationV { sql: self.sql@, args: self.args.deep_view() }
    }
}

/// `SELECT <columns> FROM <table> WHERE <id column> = <placeholder>`.
pub open spec fn spec_get_sql(t: TableV, b: Backend) -> Seq<char> {
    "SELECT "@ + spec_column_list(t, b) + " FROM "@ + t.table + " WHERE "@ + spec_column(
        t.fields[t.id],
        b,
    ) + " = "@ + spec_placeholder(b, 0)
}

/// `SELECT <columns> FROM <table>`.
pub open spec fn spec_all_sql(t: TableV, b: Backend) -> Seq<char> {
    "SELECT "@ + spec_column_list(t, b) + " FROM "@ + t.table
}

/// `SELECT <columns> FROM <table> LIMIT <ph> OFFSET <ph>`.
pub open spec fn spec_paginated_sql(t: TableV, b: Backend) -> Seq<char> {
    spec_all_sql(t, b) + " LIMIT "@ + spec_placeholder(b, 0) + " OFFSET "@ + spec_placeholder(b, 1)
}

/// The `<column> = <placeholder>` fragments of a full update, over the
/// fields at `idx`, with placeholders numbered by position.
pub open spec fn spec_assignment_parts(fs: Seq<FieldV>, idx: Seq<usize>, b: Backend) -> Seq<
    Seq<char>,
> {
    Seq::new(idx.len(), |k: int| spec_column(fs[idx[k] as int], b) + " = "@ + spec_placeholder(b, k))
}

/// `UPDATE <table> SET <c>=<ph>,... WHERE <id column> = <ph>`, over all
/// non-identifier fields in declaration order, the identifier bound
/// last.
pub open spec fn spec_update_sql(t: TableV, b: Backend) -> Seq<char> {
    "UPDATE "@ + t.table + " SET "@ + spec_join(
        spec_assignment_parts(t.fields, spec_except_idx(t.fields.len() as int, t.id), b),
        ", "@,
    ) + " WHERE "@ + spec_column(t.fields[t.id], b) + " = "@ + spec_placeholder(
        b,
        spec_except_idx(t.fields.len() as int, t.id).len() as int,
    )
}

/// The argument expressions of the fields at `idx`, in order.
pub open spec fn spec_args_at(fs: Seq<FieldV>, idx: Seq<usize>) -> Seq<Seq<char>> {
    idx.map_values(|i: usize| spec_fmt_as_argument(fs[i as int]))
}

/// A full update binds every non-identifier field in declaration order,
/// then the identifier itself.
pub open spec fn spec_update_args(t: TableV) -> Seq<Seq<char>> {
    spec_args_at(t.fields, spec_except_idx(t.fields.len() as int, t.id)) + seq![
        "self."@ + t.fields[t.id].field,
    ]
}

/// `DELETE FROM <table> WHERE <id column> = <placeholder>`.
pub open spec fn spec_delete_sql(t: TableV, b: Backend) -> Seq<char> {
    "DELETE FROM "@ + t.table + " WHERE "@ + spec_column(t.fields[t.id], b) + " = "@
        + spec_placeholder(b, 0)
}

/// The fetch-by-id statement; it binds the caller's `id` argument.
pub fn get(t: &Table, b: Backend) -> (r: Operation)
    requires
        t@.wf(),
    ensures
        r@.sql == spec_get_sql(t@, b),
        r@.args == seq!["id"@],
{
    proof {
        reveal_strlit("SELECT ");
        reveal_strlit(" FROM ");
        reveal_strlit(" WHERE ");
        reveal_strlit(" = ");
        assert(t.fields@.len() == t@.fields.len());
        assert(t@.fields[t.id as int] == t.fields@[t.id as int]@);
    }
    let cols = t.select_column_list(b);
    let mut sql = "SELECT ".to_owned();
    sql.append(cols.as_str());
    sql.append(" FROM ");
    sql.append(t.table.as_str());
    sql.append(" WHERE ");
    let idcol = t.fields[t.id].column(b);
    sql.append(idcol.as_str());
    sql.append(" = ");
    let ph = placeholder(b, 0);
    sql.append(ph.as_str());
    let mut args: Vec<String> = Vec::new();
    args.push("id".to_owned());
    proof {
        assert(sql@ =~= spec_get_sql(t@, b));
        assert(args.deep_view() =~= seq!["id"@]);
    }
    Operation { sql, args }
}

/// The fetch-all statement; it binds nothing.
pub fn stream_all(t: &Table, b: Backend) -> (r: Operation)
    ensures
        r@.sql == spec_all_sql(t@, b),
        r@.args == Seq::<Seq<char>>::empty(),
{
    proof {
        reveal_strlit("SELECT ");
        reveal_strlit(" FROM ");
    }
    let cols = t.select_column_list(b);
    let mut sql = "SELECT ".to_owned();
    sql.append(cols.as_str());
    sql.append(" FROM ");
    sql.append(t.table.as_str());
    let args: Vec<String> = Vec::new();
    proof {
        assert(sql@ =~= spec_all_sql(t@, b));
        assert(args.deep_view() =~= Seq::<Seq<char>>::empty());
    }
    Operation { sql, args }
}

/// The paginated fetch-all statement; it binds the caller's `limit`,
/// then `offset`.
pub fn stream_all_paginated(t: &Table, b: Backend) -> (r: Operation)
    ensures
        r@.sql == spec_paginated_sql(t@, b),
        r@.args == seq!["limit"@, "offset"@],
{
    proof {
        reveal_strlit("SELECT ");
        reveal_strlit(" FROM ");
        reveal_strlit(" LIMIT ");
        reveal_strlit(" OFFSET ");
    }
    let cols = t.select_column_list(b);
    let mut sql = "SELECT ".to_owned();
    sql.append(cols.as_str());
    sql.append(" FROM ");
    sql.append(t.table.as_str());
    sql.append(" LIMIT ");
    let ph0 = placeholder(b, 0);
    sql.append(ph0.as_str());
    sql.append(" OFFSET ");
    let ph1 = placeholder(b, 1);
    sql.append(ph1.as_str());
    let mut args: Vec<String> = Vec::new();
    args.push("limit".to_owned());
    args.push("offset".to_owned());
    proof {
        assert(sql@ =~= spec_paginated_sql(t@, b));
        assert(args.deep_view() =~= seq!["limit"@, "offset"@]);
    }
    Operation { sql, args }
}

/// The full-update statement: every non-identifier field in declaration
/// order, the identifier bound last.
pub fn update(t: &Table, b: Backend) -> (r: Operation)
    requires
        t@.wf(),
    ensures
        r@.sql == spec_update_sql(t@, b),
        r@.args == spec_update_args(t@),
{
    proof {
        reveal_strlit("UPDATE ");
        reveal_strlit(" SET ");
        reveal_strlit(" WHERE ");
        reveal_strlit(" = ");
        reveal_strlit(", ");
        reveal_strlit("self.");
        assert(t.fields@.len() == t@.fields.len());
        assert(t@.fields[t.id as int] == t.fields@[t.id as int]@);
    }
    let idx = t.fields_except_id();
    let ghost gidx = spec_except_idx(t@.fields.len() as int, t@.id);
    proof {
        lemma_except_idx_bounds(t@.fields.len() as int, t@.id);
        lemma_except_idx_len(t@.fields.len() as int, t@.id);
        assert(gidx.len() < t@.fields.len());
    }
    let n = idx.len();
    let mut parts: Vec<String> = Vec::new();
    let mut args: Vec<String> = Vec::new();
    let mut k: usize = 0;
    while k < n
        invariant
            k <= n,
            n == gidx.len(),
            idx@ == gidx,
            t@.wf(),
            t@.fields == t.fields@.map_values(|f: crate::table::TableField| f@),
            forall|j: int| 0 <= j < gidx.len() ==> #[trigger] gidx[j] < t@.fields.len(),
            parts@.len() == k,
            args@.len() == k,
            forall|j: int|
                0 <= j < k ==> (#[trigger] parts@[j])@ == spec_assignment_parts(
                    t@.fields,
                    gidx,
                    b,
                )[j],
            forall|j: int| 0 <= j < k ==> (#[trigger] args@[j])@ == spec_args_at(t@.fields, gidx)[j],
        decreases n - k,
    {
        let i = idx[k];
        proof {
            assert(gidx[k as int] < t@.fields.len());
            assert(t@.fields[i as int] == t.fields@[i as int]@);
        }
        let mut part = t.fields[i].column(b);
        part.append(" = ");
        let ph = placeholder(b, k as u64);
        part.append(ph.as_str());
        parts.push(part);
        let arg = t.fields[i].fmt_as_argument();
        args.push(arg);
        proof {
            assert(part@ == spec_assignment_parts(t@.fields, gidx, b)[k as int]);
            assert(arg@ == spec_args_at(t@.fields, gidx)[k as int]);
        }
        k = k + 1;
    }
    proof {
        assert(spec_assignment_parts(t@.fields, gidx, b).len() == gidx.len());
        assert(spec_args_at(t@.fields, gidx).len() == gidx.len());
        assert(parts.deep_view() =~= spec_assignment_parts(t@.fields, gidx, b));
        assert(args.deep_view() =~= spec_args_at(t@.fields, gidx));
    }
    let nf = t.fields.len();
    proof {
        assert(n < nf);
    }
    let assignments = join_strings(&parts, ", ");
    let mut sql = "UPDATE ".to_owned();
    sql.append(t.table.as_str());
    sql.append(" SET ");
    sql.append(assignments.as_str());
    sql.append(" WHERE ");
    let idcol = t.fields[t.id].column(b);
    sql.append(idcol.as_str());
    sql.append(" = ");
    let ph = placeholder(b, n as u64);
    sql.append(ph.as_str());
    let mut id_arg = "self.".to_owned();
    id_arg.append(t.fields[t.id].field.as_str());
    args.push(id_arg);
    proof {
        assert(sql@ =~= spec_update_sql(t@, b));
        assert(args.deep_view() =~= spec_update_args(t@));
    }
    Operation { sql, args }
}

/// The delete statement; it binds the caller's `id` argument. The
/// executed operation reports a missing row distinctly: see the runtime
/// model.
pub fn delete(t: &Table, b: Backend) -> (r: Operation)
    requires
        t@.wf(),
    ensures
        r@.sql == spec_delete_sql(t@, b),
        r@.args == seq!["id"@],
{
    proof {
        reveal_strlit("DELETE FROM ");
        reveal_strlit(" WHERE ");
        reveal_strlit(" = ");
        assert(t.fields@.len() == t@.fields.len());
        assert(t@.fields[t.id as int] == t.fields@[t.id as int]@);
    }
    let mut sql = "DELETE FROM ".to_owned();
    sql.append(t.table.as_str());
    sql.append(" WHERE ");
    let idcol = t.fields[t.id].column(b);
    sql.append(idcol.as_str());
    sql.append(" = ");
    let ph = placeholder(b, 0);
    sql.append(ph.as_str());
    let mut args: Vec<String> = Vec::new();
    args.push("id".to_owned());
    proof {
        assert(sql@ =~= spec_delete_sql(t@, b));
        assert(args.deep_view() =~= seq!["id"@]);
    }
    Operation { sql, args }
}

/// Every index an except-list holds is a valid field index.
pub proof fn lemma_except_idx_bounds(n: int, skip: int)
    ensures
        forall|j: int|
            0 <= j < spec_except_idx(n, skip).len() ==> #[trigger] spec_except_idx(n, skip)[j] < n,
    decreases n,
{
    if n > 0 {
        lemma_except_idx_bounds(n - 1, skip);
        assert forall|j: int| 0 <= j < spec_except_idx(n, skip).len() implies #[trigger] spec_except_idx(
            n,
            skip,
        )[j] < n by {
            if j < spec_except_idx(n - 1, skip).len() {
                assert(spec_except_idx(n, skip)[j] == spec_except_idx(n - 1, skip)[j]);
            }
        }
    }
}

/// An except-list drops exactly the one skipped index.
pub proof fn lemma_except_idx_len(n: int, skip: int)
    ensures
        spec_except_idx(n, skip).len() == if 0 <= skip < n {
            n - 1
        } else if n >= 0 {
            n
        } else {
            0
        },
    decreases n,
{
    if n > 0 {
        lemma_except_idx_len(n - 1, skip);
    }
}

/// The statements the table's core interface consists of.
pub struct TableOps {
    pub get: Operation,
    pub stream_all: Operation,
    pub stream_all_paginated: Operation,
    pub update: Operation,
}

/// Emits the table's core interface: fetch-by-id, the two streaming
/// fetches, and the full update.
pub fn impl_table(t: &Table, b: Backend) -> (r: TableOps)
    requires
        t@.wf(),
    ensures
        r.get@.sql == spec_get_sql(t@, b),
        r.get@.args == seq!["id"@],
        r.stream_all@.sql == spec_all_sql(t@, b),
        r.stream_all@.args == Seq::<Seq<char>>::empty(),
        r.stream_all_paginated@.sql == spec_paginated_sql(t@, b),
        r.stream_all_paginated@.args == seq!["limit"@, "offset"@],
        r.update@.sql == spec_update_sql(t@, b),
        r.update@.args == spec_update_args(t@),
{
    TableOps {
        get: get(t, b),
        stream_all: stream_all(t, b),
        stream_all_paginated: stream_all_paginated(t, b),
        update: update(t, b),
    }
}

/// Emits the delete statement, for tables that opted into deletion.
pub fn impl_delete(t: &Table, b: Backend) -> (r: Option<Operation>)
    requires
        t@.wf(),
    ensures
        r is Some <==> t@.deletable,
        r matches Some(op) ==> op@.sql == spec_delete_sql(t@, b) && op@.args == seq!["id"@],
{
    if t.deletable {
        Some(delete(t, b))
    } else {
        None
    }
}

/// One emitted single-field setter: the generated function's name, its
/// statement, and the expression binding the new value.
pub struct Setter {
    pub name: String,
    pub sql: String,
    pub value: String,
}

/// Mathematical model of an emitted setter.
#[verifier::ext_equal]
pub ghost struct SetterV {
    pub name: Seq<char>,
    pub sql: Seq<char>,
    pub value: Seq<char>,
}

impl View for Setter {
    type V = SetterV;

    open spec fn view(&self) -> SetterV {
        SetterV { name: self.name@, sql: self.sql@, value: self.value@ }
    }
}

impl DeepView for Setter {
    type V = SetterV;

    open spec fn deep_view(&self) -> SetterV {
        self.view()
    }
}

/// `UPDATE <table> SET <column> = <ph> WHERE <id column> = <ph>`.
pub open spec fn spec_setter_sql(t: TableV, i: int, b: Backend) -> Seq<char> {
    "UPDATE "@ + t.table + " SET "@ + spec_column(t.fields[i], b) + " = "@ + spec_placeholder(b, 0)
        + " WHERE "@ + spec_column(t.fields[t.id], b) + " = "@ + spec_placeholder(b, 1)
}

/// The expression binding a setter's new value: cast through the
/// declared semantic type for custom-typed fields, by reference when
/// asked for.
pub open spec fn spec_setter_value(f: FieldV) -> Seq<char> {
    let base = if f.custom_type {
        "value as "@ + f.ty
    } else {
        "value"@
    };
    if f.by_ref {
        "&("@ + base + ")"@
    } else {
        base
    }
}

/// The setters of the first `n` fields, in declaration order.
pub open spec fn spec_setters_upto(t: TableV, b: Backend, n: int) -> Seq<SetterV>
    decreases n,
{
    if n <= 0 {
        Seq::empty()
    } else {
        spec_setters_upto(t, b, n - 1)
            + match t.fields[n - 1].set {
                Some(name) => seq![
                    SetterV {
                        name: name,
                        sql: spec_setter_sql(t, n - 1, b),
                        value: spec_setter_value(t.fields[n - 1]),
                    },
                ],
                None => Seq::empty(),
            }
    }
}

/// All emitted setters, one per field that asked for one.
pub open spec fn spec_setters(t: TableV, b: Backend) -> Seq<SetterV> {
    spec_setters_upto(t, b, t.fields.len() as int)
}

/// Emits one single-field setter per field marked settable: the update
/// scoped to the identifier, and the in-memory assignment's value
/// expression.
pub fn setters(t: &Table, b: Backend) -> (r: Vec<Setter>)
    requires
        t@.wf(),
    ensures
        r.deep_view() == spec_setters(t@, b),
{
    let n = t.fields.len();
    let mut r: Vec<Setter> = Vec::new();
    let mut i: usize = 0;
    while i < n
        invariant
            i <= n,
            n == t.fields@.len(),
            t@.wf(),
            n == t@.fields.len(),
            t@.fields == t.fields@.map_values(|f: crate::table::TableField| f@),
            r.deep_view() == spec_setters_upto(t@, b, i as int),
        decreases n - i,
    {
        proof {
            assert(t@.fields[i as int] == t.fields@[i as int]@);
        }
        let ghost pre = spec_setters_upto(t@, b, i as int);
        if t.fields[i].set.is_some() {
            let name: String = match &t.fields[i].set {
                Some(s) => s.clone(),
                None => String::new(),
            };
            proof {
                reveal_strlit("UPDATE ");
                reveal_strlit(" SET ");
                reveal_strlit(" WHERE ");
                reveal_strlit(" = ");
                reveal_strlit("value");
                reveal_strlit("value as ");
                reveal_strlit("&(");
                reveal_strlit(")");
            }
            let mut sql = "UPDATE ".to_owned();
            sql.append(t.table.as_str());
            sql.append(" SET ");
            let col = t.fields[i].column(b);
            sql.append(col.as_str());
            sql.append(" = ");
            let ph0 = placeholder(b, 0);
            sql.append(ph0.as_str());
            sql.append(" WHERE ");
            let idcol = t.fields[t.id].column(b);
            sql.append(idcol.as_str());
            sql.append(" = ");
            let ph1 = placeholder(b, 1);
            sql.append(ph1.as_str());
            let mut value: String;
            if t.fields[i].custom_type {
                value = "value as ".to_owned();
                value.append(t.fields[i].ty.as_str());
            } else {
                value = "value".to_owned();
            }
            if t.fields[i].by_ref {
                let mut wrapped = "&(".to_owned();
                wrapped.append(value.as_str());
                wrapped.append(")");
                value = wrapped;
            }
            let s = Setter { name, sql, value };
            proof {
                assert(t@.fields[t@.id] == t.fields@[t.id as int]@);
                assert(s@.sql =~= spec_setter_sql(t@, i as int, b));
                assert(s@.value =~= spec_setter_value(t@.fields[i as int]));
            }
            r.push(s);
            proof {
                assert(pre.len() == r@.len() - 1);
                assert(r.deep_view() =~= spec_setters_upto(t@, b, i + 1));
            }
        } else {
            proof {
                assert(r.deep_view() =~= spec_setters_upto(t@, b, i + 1));
            }
        }
        i = i + 1;
    }
    r
}

/// Kinds of emitted lookup functions: exactly one row, zero or one,
/// zero or more, and set membership over an array argument.
#[derive(Clone, Copy, PartialEq, Eq, Structural, Debug)]
pub enum GetterKind {
    One,
    Optional,
    Many,
    Any,
}

/// One emitted lookup function: its name, its argument's type, how many
/// rows it yields, and its statement.
pub struct GetterOp {
    pub name: String,
    pub arg_ty: String,
    pub kind: GetterKind,
    pub sql: String,
}

/// Mathematical model of an emitted lookup.
#[verifier::ext_equal]
pub ghost struct GetterOpV {
    pub name: Seq<char>,
    pub arg_ty: Seq<char>,
    pub kind: GetterKind,
    pub sql: Seq<char>,
}

impl View for GetterOp {
    type V = GetterOpV;

    open spec fn view(&self) -> GetterOpV {
        GetterOpV { name: self.name@, arg_ty: self.arg_ty@, kind: self.kind, sql: self.sql@ }
    }
}

impl DeepView for GetterOp {
    type V = GetterOpV;

    open spec fn deep_view(&self) -> GetterOpV {
        self.view()
    }
}

/// Wraps a statement as an exactly-one-row lookup; it fails when zero
/// or more than one rows match.
pub fn get_one(name: String, arg_ty: String, sql: String) -> (r: GetterOp)
    ensures
        r@ == (GetterOpV { name: name@, arg_ty: arg_ty@, kind: GetterKind::One, sql: sql@ }),
{
    GetterOp { name, arg_ty, kind: GetterKind::One, sql }
}

/// Wraps a statement as a zero-or-one-row lookup.
pub fn get_optional(name: String, arg_ty: String, sql: String) -> (r: GetterOp)
    ensures
        r@ == (GetterOpV { name: name@, arg_ty: arg_ty@, kind: GetterKind::Optional, sql: sql@ }),
{
    GetterOp { name, arg_ty, kind: GetterKind::Optional, sql }
}

/// Wraps a statement as a zero-or-more-rows lookup.
pub fn get_many(name: String, arg_ty: String, sql: String) -> (r: GetterOp)
    ensures
        r@ == (GetterOpV { name: name@, arg_ty: arg_ty@, kind: GetterKind::Many, sql: sql@ }),
{
    GetterOp { name, arg_ty, kind: GetterKind::Many, sql }
}

/// `SELECT <columns> FROM <table> WHERE <field's column> = <ph>`.
pub open spec fn spec_getter_sql(t: TableV, i: int, b: Backend) -> Seq<char> {
    "SELECT "@ + spec_column_list(t, b) + " FROM "@ + t.table + " WHERE "@ + spec_column(
        t.fields[i],
        b,
    ) + " = "@ + spec_placeholder(b, 0)
}

/// The lookup's name: the declared one, or `by_<field>`.
pub open spec fn spec_getter_name(g: crate::attrs::GetterV, f: FieldV) -> Seq<char> {
    match g.func {
        Some(n) => n,
        None => "by_"@ + f.field,
    }
}

/// The lookup's argument type: the declared one, or a reference to the
/// field's own type.
pub open spec fn spec_getter_arg(g: crate::attrs::GetterV, f: FieldV) -> Seq<char> {
    match g.arg_ty {
        Some(a) => a,
        None => "&"@ + f.ty,
    }
}

/// The exactly-one-row lookup of field `i`, if declared.
pub open spec fn spec_one_ops(t: TableV, b: Backend, i: int) -> Seq<GetterOpV> {
    match t.fields[i].get_one {
        Some(g) => seq![
            GetterOpV {
                name: spec_getter_name(g, t.fields[i]),
                arg_ty: spec_getter_arg(g, t.fields[i]),
                kind: GetterKind::One,
                sql: spec_getter_sql(t, i, b),
            },
        ],
        None => Seq::empty(),
    }
}

/// The zero-or-one-row lookup of field `i`, if declared.
pub open spec fn spec_optional_ops(t: TableV, b: Backend, i: int) -> Seq<GetterOpV> {
    match t.fields[i].get_optional {
        Some(g) => seq![
            GetterOpV {
                name: spec_getter_name(g, t.fields[i]),
                arg_ty: spec_getter_arg(g, t.fields[i]),
                kind: GetterKind::Optional,
                sql: spec_getter_sql(t, i, b),
            },
        ],
        None => Seq::empty(),
    }
}

/// The zero-or-more-rows lookup of field `i`, if declared.
pub open spec fn spec_many_ops(t: TableV, b: Backend, i: int) -> Seq<GetterOpV> {
    match t.fields[i].get_many {
        Some(g) => seq![
            GetterOpV {
                name: spec_getter_name(g, t.fields[i]),
                arg_ty: spec_getter_arg(g, t.fields[i]),
                kind: GetterKind::Many,
                sql: spec_getter_sql(t, i, b),
            },
        ],
        None => Seq::empty(),
    }
}

/// The lookups of one field, in emission order.
pub open spec fn spec_field_getter_ops(t: TableV, b: Backend, i: int) -> Seq<GetterOpV> {
    spec_one_ops(t, b, i) + spec_optional_ops(t, b, i) + spec_many_ops(t, b, i)
}

/// The lookups of the first `n` fields.
pub open spec fn spec_getters_upto(t: TableV, b: Backend, n: int) -> Seq<GetterOpV>
    decreases n,
{
    if n <= 0 {
        Seq::empty()
    } else {
        spec_getters_upto(t, b, n - 1) + spec_field_getter_ops(t, b, n - 1)
    }
}

/// All lookups the shared generator emits, in declaration order.
pub open spec fn spec_getters(t: TableV, b: Backend) -> Seq<GetterOpV> {
    spec_getters_upto(t, b, t.fields.len() as int)
}

/// Emits the lookup functions every dialect shares: `get_one`,
/// `get_optional` and `get_many` declarations, in declaration order.
/// All of them embed the same column list as fetch-by-id.
pub fn getters(t: &Table, b: Backend) -> (r: Vec<GetterOp>)
    requires
        t@.wf(),
    ensures
        r.deep_view() == spec_getters(t@, b),
{
    let n = t.fields.len();
    let mut r: Vec<GetterOp> = Vec::new();
    let mut i: usize = 0;
    while i < n
        invariant
            i <= n,
            n == t.fields@.len(),
            t@.wf(),
            n == t@.fields.len(),
            t@.fields == t.fields@.map_values(|f: crate::table::TableField| f@),
            r.deep_view() == spec_getters_upto(t@, b, i as int),
        decreases n - i,
    {
        proof {
            assert(t@.fields[i as int] == t.fields@[i as int]@);
            reveal_strlit("SELECT ");
            reveal_strlit(" FROM ");
            reveal_strlit(" WHERE ");
            reveal_strlit(" = ");
        }
        let ghost pre = spec_getters_upto(t@, b, i as int);
        let cols = t.select_column_list(b);
        let mut sql = "SELECT ".to_owned();
        sql.append(cols.as_str());
        sql.append(" FROM ");
        sql.append(t.table.as_str());
        sql.append(" WHERE ");
        let col = t.fields[i].column(b);
        sql.append(col.as_str());
        sql.append(" = ");
        let ph = placeholder(b, 0);
        sql.append(ph.as_str());
        proof {
            assert(sql@ =~= spec_getter_sql(t@, i as int, b));
        }
        if let Some(g) = &t.fields[i].get_one {
            let (name, arg) = g.or_fallback(&t.fields[i]);
            r.push(get_one(name, arg, sql.clone()));
        }
        proof {
            assert(pre.len() == spec_getters_upto(t@, b, i as int).len());
            assert(r.deep_view() =~= pre + spec_one_ops(t@, b, i as int));
        }
        let ghost pre1 = pre + spec_one_ops(t@, b, i as int);
        if let Some(g) = &t.fields[i].get_optional {
            let (name, arg) = g.or_fallback(&t.fields[i]);
            r.push(get_optional(name, arg, sql.clone()));
        }
        proof {
            assert(r.deep_view() =~= pre1 + spec_optional_ops(t@, b, i as int));
        }
        let ghost pre2 = pre1 + spec_optional_ops(t@, b, i as int);
        if let Some(g) = &t.fields[i].get_many {
            let (name, arg) = g.or_fallback(&t.fields[i]);
            r.push(get_many(name, arg, sql));
        }
        proof {
            assert(r.deep_view() =~= pre2 + spec_many_ops(t@, b, i as int));
            assert(r.deep_view() =~= spec_getters_upto(t@, b, i + 1));
        }
        i = i + 1;
    }
    r
}

/// `<column> = <placeholder>` fragments of the patch statement.
pub open spec fn spec_patch_assignment_parts(p: PatchV, b: Backend) -> Seq<Seq<char>> {
    Seq::new(p.fields.len(), |k: int| p.fields[k].column + " = "@ + spec_placeholder(b, k))
}

/// `UPDATE <table> SET <c>=<ph>,... WHERE <id column> = <ph>`, covering
/// exactly the patch's declared fields, the row's identifier bound
/// last.
pub open spec fn spec_patch_sql(p: PatchV, b: Backend) -> Seq<char> {
    "UPDATE "@ + p.table_name + " SET "@ + spec_join(spec_patch_assignment_parts(p, b), ", "@)
        + " WHERE "@ + p.id + " = "@ + spec_placeholder(b, p.fields.len() as int)
}

/// The patch binds its fields in declaration order, then the row's
/// identifier.
pub open spec fn spec_patch_args(p: PatchV) -> Seq<Seq<char>> {
    p.fields.map_values(|f: crate::patch::PatchFieldV| crate::patch::spec_patch_fmt_as_argument(f))
        + seq!["id"@]
}

/// Emits the partial-update statement of a patch: it persists exactly
/// the patch's declared columns and no others.
pub fn impl_patch(p: &Patch, b: Backend) -> (r: Operation)
    requires
        p.fields@.len() < usize::MAX,
    ensures
        r@.sql == spec_patch_sql(p@, b),
        r@.args == spec_patch_args(p@),
{
    proof {
        reveal_strlit("UPDATE ");
        reveal_strlit(" SET ");
        reveal_strlit(" WHERE ");
        reveal_strlit(" = ");
        reveal_strlit(", ");
    }
    let n = p.fields.len();
    let mut parts: Vec<String> = Vec::new();
    let mut args: Vec<String> = Vec::new();
    let mut k: usize = 0;
    while k < n
        invariant
            k <= n,
            n == p.fields@.len(),
            p@.fields == p.fields@.map_values(|f: crate::patch::PatchField| f@),
            n == p@.fields.len(),
            parts@.len() == k,
            args@.len() == k,
            forall|j: int|
                0 <= j < k ==> (#[trigger] parts@[j])@ == spec_patch_assignment_parts(p@, b)[j],
            forall|j: int| 0 <= j < k ==> (#[trigger] args@[j])@ == spec_patch_args(p@)[j],
        decreases n - k,
    {
        proof {
            assert(p@.fields[k as int] == p.fields@[k as int]@);
        }
        let mut part = p.fields[k].column.clone();
        part.append(" = ");
        let ph = placeholder(b, k as u64);
        part.append(ph.as_str());
        let arg = p.fields[k].fmt_as_argument();
        parts.push(part);
        args.push(arg);
        proof {
            assert(part@ == spec_patch_assignment_parts(p@, b)[k as int]);
            assert(arg@ == spec_patch_args(p@)[k as int]);
        }
        k = k + 1;
    }
    proof {
        assert(spec_patch_assignment_parts(p@, b).len() == n);
        assert(parts.deep_view() =~= spec_patch_assignment_parts(p@, b));
    }
    let assignments = join_strings(&parts, ", ");
    let mut sql = "UPDATE ".to_owned();
    sql.append(p.table_name.as_str());
    sql.append(" SET ");
    sql.append(assignments.as_str());
    sql.append(" WHERE ");
    sql.append(p.id.as_str());
    sql.append(" = ");
    let ph = placeholder(b, n as u64);
    sql.append(ph.as_str());
    args.push("id".to_owned());
    proof {
        assert(sql@ =~= spec_patch_sql(p@, b));
        assert(spec_patch_args(p@).len() == n + 1);
        assert(args.deep_view() =~= spec_patch_args(p@));
    }
    Operation { sql, args }
}

/// The shape of the helper type carrying a new row's caller-supplied
/// values: its name, the annotations carried onto it, and the indices
/// of the insertable fields. Each field's own forwarded annotations
/// stand on the field in the table model.
pub struct InsertStruct {
    pub ident: String,
    pub attrs: Vec<String>,
    pub fields: Vec<usize>,
}

/// Emits the insert helper's shape, for tables that opted into
/// insertion.
pub fn insert_struct(t: &Table) -> (r: Option<InsertStruct>)
    ensures
        r is Some <==> t@.insertable is Some,
        r matches Some(s) ==> (match t@.insertable {
            Some(iv) => s.ident@ == iv.ident && s.attrs.deep_view() == iv.attrs,
            None => false,
        }) && s.fields@ == spec_insertable_idx(t@.fields),
{
    match &t.insertable {
        Some(ins) => Some(
            InsertStruct {
                ident: ins.ident.clone(),
                attrs: crate::strutil::clone_string_vec(&ins.attrs),
                fields: t.insertable_fields(),
            },
        ),
        None => None,
    }
}

/// The select-list entries of the fields at `idx`.
pub open spec fn spec_parts_at(fs: Seq<FieldV>, idx: Seq<usize>, b: Backend) -> Seq<Seq<char>> {
    idx.map_values(|i: usize| spec_fmt_for_select(fs[i as int], b))
}

/// Every index a default-list holds is a valid field index, and the
/// list is strictly increasing: declaration order is kept.
pub proof fn lemma_default_idx_props(fs: Seq<FieldV>)
    requires
        fs.len() <= usize::MAX,
    ensures
        forall|j: int|
            0 <= j < crate::table::spec_default_idx(fs).len()
                ==> #[trigger] crate::table::spec_default_idx(fs)[j] < fs.len(),
        forall|j1: int, j2: int|
            0 <= j1 < j2 < crate::table::spec_default_idx(fs).len()
                ==> #[trigger] crate::table::spec_default_idx(fs)[j1]
                < #[trigger] crate::table::spec_default_idx(fs)[j2],
    decreases fs.len(),
{
    if fs.len() > 0 {
        lemma_default_idx_props(fs.drop_last());
        let prev = crate::table::spec_default_idx(fs.drop_last());
        let cur = crate::table::spec_default_idx(fs);
        assert forall|j: int| 0 <= j < cur.len() implies #[trigger] cur[j] < fs.len() by {
            if j < prev.len() {
                assert(cur[j] == prev[j]);
                assert(prev[j] < fs.drop_last().len());
            } else {
                assert(cur[j] == (fs.len() - 1) as usize);
            }
        }
        assert forall|j1: int, j2: int| 0 <= j1 < j2 < cur.len() implies #[trigger] cur[j1]
            < #[trigger] cur[j2] by {
            if j2 < prev.len() {
                assert(cur[j1] == prev[j1] && cur[j2] == prev[j2]);
            } else {
                assert(cur[j2] == (fs.len() - 1) as usize);
                assert(cur[j1] == prev[j1]);
                assert(prev[j1] < fs.drop_last().len());
            }
        }
    }
}

/// The same, for the default-list that skips one index.
pub proof fn lemma_default_except_idx_props(fs: Seq<FieldV>, skip: int)
    requires
        fs.len() <= usize::MAX,
    ensures
        forall|j: int|
            0 <= j < crate::table::spec_default_except_idx(fs, skip).len()
                ==> #[trigger] crate::table::spec_default_except_idx(fs, skip)[j] < fs.len(),
        forall|j1: int, j2: int|
            0 <= j1 < j2 < crate::table::spec_default_except_idx(fs, skip).len()
                ==> #[trigger] crate::table::spec_default_except_idx(fs, skip)[j1]
                < #[trigger] crate::table::spec_default_except_idx(fs, skip)[j2],
    decreases fs.len(),
{
    if fs.len() > 0 {
        lemma_default_except_idx_props(fs.drop_last(), skip);
        let prev = crate::table::spec_default_except_idx(fs.drop_last(), skip);
        let cur = crate::table::spec_default_except_idx(fs, skip);
        assert forall|j: int| 0 <= j < cur.len() implies #[trigger] cur[j] < fs.len() by {
            if j < prev.len() {
                assert(cur[j] == prev[j]);
                assert(prev[j] < fs.drop_last().len());
            } else {
                assert(cur[j] == (fs.len() - 1) as usize);
            }
        }
        assert forall|j1: int, j2: int| 0 <= j1 < j2 < cur.len() implies #[trigger] cur[j1]
            < #[trigger] cur[j2] by {
            if j2 < prev.len() {
                assert(cur[j1] == prev[j1] && cur[j2] == prev[j2]);
            } else {
                assert(cur[j2] == (fs.len() - 1) as usize);
                assert(cur[j1] == prev[j1]);
                assert(prev[j1] < fs.drop_last().len());
            }
        }
    }
}

/// The column list is computed once and shared: fetch-by-id and
/// fetch-all embed the identical text for the identical field order,
/// and the lists an insert reads generated values back with (the
/// post-fetch after a two-step insert, or a returning clause) render
/// each of their columns exactly as the shared list renders it, in the
/// same relative order.
pub proof fn lemma_column_list_shared(t: TableV, b: Backend)
    requires
        t.wf(),
        t.fields.len() <= usize::MAX,
    ensures
        spec_get_sql(t, b).subrange(0, ("SELECT "@ + spec_column_list(t, b)).len() as int)
            == spec_all_sql(t, b).subrange(0, ("SELECT "@ + spec_column_list(t, b)).len() as int),
        spec_column_list(t, b) == spec_join(spec_parts_at(
            t.fields,
            crate::table::spec_all_idx(t.fields.len() as int),
            b,
        ), ", "@),
        forall|k: int|
            0 <= k < crate::table::spec_default_idx(t.fields).len()
                ==> #[trigger] spec_parts_at(t.fields, crate::table::spec_default_idx(t.fields), b)[k]
                == crate::table::spec_select_parts(t.fields, b)[crate::table::spec_default_idx(
                t.fields,
            )[k] as int],
        forall|k: int|
            0 <= k < crate::table::spec_default_except_idx(t.fields, t.id).len()
                ==> #[trigger] spec_parts_at(
                t.fields,
                crate::table::spec_default_except_idx(t.fields, t.id),
                b,
            )[k] == crate::table::spec_select_parts(t.fields, b)[
            crate::table::spec_default_except_idx(t.fields, t.id)[k] as int],
        forall|j1: int, j2: int|
            0 <= j1 < j2 < crate::table::spec_default_idx(t.fields).len()
                ==> #[trigger] crate::table::spec_default_idx(t.fields)[j1]
                < #[trigger] crate::table::spec_default_idx(t.fields)[j2],
        forall|j1: int, j2: int|
            0 <= j1 < j2 < crate::table::spec_default_except_idx(t.fields, t.id).len()
                ==> #[trigger] crate::table::spec_default_except_idx(t.fields, t.id)[j1]
                < #[trigger] crate::table::spec_default_except_idx(t.fields, t.id)[j2],
{
    let pre = "SELECT "@ + spec_column_list(t, b);
    assert(spec_get_sql(t, b).subrange(0, pre.len() as int) =~= pre);
    assert(spec_all_sql(t, b).subrange(0, pre.len() as int) =~= pre);
    lemma_all_idx_parts(t.fields, b);
    lemma_default_idx_props(t.fields);
    lemma_default_except_idx_props(t.fields, t.id);
}

/// Mapping the full index list over the fields yields exactly the
/// shared select-list entries.
proof fn lemma_all_idx_parts(fs: Seq<FieldV>, b: Backend)
    requires
        fs.len() <= usize::MAX,
    ensures
        spec_parts_at(fs, crate::table::spec_all_idx(fs.len() as int), b)
            == crate::table::spec_select_parts(fs, b),
        spec_join(spec_parts_at(fs, crate::table::spec_all_idx(fs.len() as int), b), ", "@)
            == spec_join(crate::table::spec_select_parts(fs, b), ", "@),
{
    lemma_all_idx_is_identity(fs.len() as int);
    assert(spec_parts_at(fs, crate::table::spec_all_idx(fs.len() as int), b)
        =~= crate::table::spec_select_parts(fs, b));
}

/// The index list that keeps every field is `0, 1, ..., n-1`.
proof fn lemma_all_idx_is_identity(n: int)
    requires
        n <= usize::MAX,
    ensures
        crate::table::spec_all_idx(n).len() == if n >= 0 { n } else { 0 },
        forall|j: int|
            0 <= j < crate::table::spec_all_idx(n).len()
                ==> #[trigger] crate::table::spec_all_idx(n)[j] == j,
    decreases n,
{
    if n > 0 {
        lemma_all_idx_is_identity(n - 1);
        assert forall|j: int| 0 <= j < crate::table::spec_all_idx(n).len()
            implies #[trigger] crate::table::spec_all_idx(n)[j] == j by {
            if j < crate::table::spec_all_idx(n - 1).len() {
                assert(crate::table::spec_all_idx(n)[j] == crate::table::spec_all_idx(n - 1)[j]);
            } else {
                assert(crate::table::spec_all_idx(n)[j] == (n - 1) as usize);
            }
        }
    }
}

/// Every index an insertable-list holds is a valid field index, and the
/// list is strictly increasing and no longer than the field list.
pub proof fn lemma_insertable_idx_props(fs: Seq<FieldV>)
    requires
        fs.len() <= usize::MAX,
    ensures
        spec_insertable_idx(fs).len() <= fs.len(),
        forall|j: int|
            0 <= j < spec_insertable_idx(fs).len() ==> #[trigger] spec_insertable_idx(fs)[j]
                < fs.len(),
        forall|j1: int, j2: int|
            0 <= j1 < j2 < spec_insertable_idx(fs).len() ==> #[trigger] spec_insertable_idx(fs)[j1]
                < #[trigger] spec_insertable_idx(fs)[j2],
    decreases fs.len(),
{
    if fs.len() > 0 {
        lemma_insertable_idx_props(fs.drop_last());
        let prev = spec_insertable_idx(fs.drop_last());
        let cur = spec_insertable_idx(fs);
        assert forall|j: int| 0 <= j < cur.len() implies #[trigger] cur[j] < fs.len() by {
            if j < prev.len() {
                assert(cur[j] == prev[j]);
                assert(prev[j] < fs.drop_last().len());
            } else {
                assert(cur[j] == (fs.len() - 1) as usize);
            }
        }
        assert forall|j1: int, j2: int| 0 <= j1 < j2 < cur.len() implies #[trigger] cur[j1]
            < #[trigger] cur[j2] by {
            if j2 < prev.len() {
                assert(cur[j1] == prev[j1] && cur[j2] == prev[j2]);
            } else {
                assert(cur[j2] == (fs.len() - 1) as usize);
                assert(cur[j1] == prev[j1]);
                assert(prev[j1] < fs.drop_last().len());
            }
        }
    }
}

/// The quoted column names of the fields at `idx`.
pub open spec fn spec_columns_at(fs: Seq<FieldV>, idx: Seq<usize>, b: Backend) -> Seq<Seq<char>> {
    idx.map_values(|i: usize| spec_column(fs[i as int], b))
}

/// One placeholder per value of an insert, numbered by position.
pub open spec fn spec_value_placeholders(n: int, b: Backend) -> Seq<Seq<char>> {
    Seq::new(if n >= 0 { n as nat } else { 0 }, |k: int| spec_placeholder(b, k))
}

} // verus!
