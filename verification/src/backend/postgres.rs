//! Insert and lookup emission for the PostgreSQL-style dialect: the
//! insert returns its generated columns in the same round trip, and
//! set-membership lookups compare a column against an array argument.

use vstd::prelude::*;

use crate::backend::common::{
    get_many, getters, lemma_default_idx_props, lemma_insertable_idx_props, spec_columns_at,
    spec_getters, spec_parts_at, spec_value_placeholders, GetterKind, GetterOp, GetterOpV,
    Operation,
};
use crate::backend::{placeholder, spec_placeholder, Backend, PgBackend};
use crate::strutil::{join_strings, spec_join};
use crate::table::{
    spec_column, spec_column_list, spec_default_idx, spec_insertable_idx, Table, TableField, TableV,
};

verus! {

/// The one statement a PostgreSQL-style insert consists of.
pub struct PgInsert {
    /// `INSERT INTO <table> (<columns>) VALUES ($1, ...)`, with a
    /// returning clause when the database generates any column.
    pub sql: String,
    /// The caller-supplied fields, bound in declaration order.
    pub args: Vec<String>,
    /// Whether the statement yields a row to decode (it has a returning
    /// clause) or is merely executed.
    pub fetch_one: bool,
}

/// The returning clause, rendered with the shared select-list entries;
/// empty when the database generates no column.
pub open spec fn spec_pg_returning(t: TableV) -> Seq<char> {
    if spec_default_idx(t.fields).len() > 0 {
        " RETURNING "@ + spec_join(
            spec_parts_at(t.fields, spec_default_idx(t.fields), Backend::Postgres),
            ", "@,
        )
    } else {
        Seq::empty()
    }
}

/// `INSERT INTO <table> (<columns>) VALUES ($1, ...) [RETURNING ...]`.
pub open spec fn spec_pg_insert_sql(t: TableV) -> Seq<char> {
    let idx = spec_insertable_idx(t.fields);
    "INSERT INTO "@ + t.table + " ("@ + spec_join(
        spec_columns_at(t.fields, idx, Backend::Postgres),
        ", "@,
    ) + ") VALUES ("@ + spec_join(
        spec_value_placeholders(idx.len() as int, Backend::Postgres),
        ", "@,
    ) + ")"@ + spec_pg_returning(t)
}

/// The insert binds the caller-supplied fields' argument expressions in
/// declaration order.
pub open spec fn spec_pg_insert_args(t: TableV) -> Seq<Seq<char>> {
    spec_insertable_idx(t.fields).map_values(
        |i: usize| crate::table::spec_fmt_as_argument(t.fields[i as int]),
    )
}

/// `SELECT <columns> FROM <table> WHERE <column> = ANY(<ph>)`.
pub open spec fn spec_get_by_any_sql(t: TableV, i: int) -> Seq<char> {
    "SELECT "@ + spec_column_list(t, Backend::Postgres) + " FROM "@ + t.table + " WHERE "@
        + spec_column(t.fields[i], Backend::Postgres) + " = ANY("@ + spec_placeholder(
        Backend::Postgres,
        0,
    ) + ")"@
}

/// The set-membership lookup's name: the declared one, or
/// `get_by_any_<field>`.
pub open spec fn spec_any_name(g: crate::attrs::GetterV, f: crate::table::FieldV) -> Seq<char> {
    match g.func {
        Some(n) => n,
        None => "get_by_any_"@ + f.field,
    }
}

/// The set-membership lookup's argument type: the declared one, or a
/// slice of the field's own type.
pub open spec fn spec_any_arg(g: crate::attrs::GetterV, f: crate::table::FieldV) -> Seq<char> {
    match g.arg_ty {
        Some(a) => a,
        None => "&["@ + f.ty + "]"@,
    }
}

/// The set-membership lookup of field `i`, if declared.
pub open spec fn spec_any_ops(t: TableV, i: int) -> Seq<GetterOpV> {
    match t.fields[i].get_by_any {
        Some(g) => seq![
            GetterOpV {
                name: spec_any_name(g, t.fields[i]),
                arg_ty: spec_any_arg(g, t.fields[i]),
                kind: GetterKind::Many,
                sql: spec_get_by_any_sql(t, i),
            },
        ],
        None => Seq::empty(),
    }
}

/// The set-membership lookups of the first `n` fields.
pub open spec fn spec_any_getters_upto(t: TableV, n: int) -> Seq<GetterOpV>
    decreases n,
{
    if n <= 0 {
        Seq::empty()
    } else {
        spec_any_getters_upto(t, n - 1) + spec_any_ops(t, n - 1)
    }
}

/// All set-membership lookups, in declaration order.
pub open spec fn spec_any_getters(t: TableV) -> Seq<GetterOpV> {
    spec_any_getters_upto(t, t.fields.len() as int)
}

/// Emits the set-membership lookups: zero-or-more-rows queries over an
/// array argument.
pub fn impl_get_by_any_getter(t: &Table) -> (r: Vec<GetterOp>)
    requires
        t@.wf(),
    ensures
        r.deep_view() == spec_any_getters(t@),
{
    let n = t.fields.len();
    let mut r: Vec<GetterOp> = Vec::new();
    let mut i: usize = 0;
    while i < n
        invariant
            i <= n,
            n == t.fields@.len(),
            t@.wf(),
            n == t@.fields.len(),
            t@.fields == t.fields@.map_values(|f: TableField| f@),
            r.deep_view() == spec_any_getters_upto(t@, i as int),
        decreases n - i,
    {
        proof {
            assert(t@.fields[i as int] == t.fields@[i as int]@);
        }
        let ghost pre = spec_any_getters_upto(t@, i as int);
        if let Some(g) = &t.fields[i].get_by_any {
            proof {
                reveal_strlit("SELECT ");
                reveal_strlit(" FROM ");
                reveal_strlit(" WHERE ");
                reveal_strlit(" = ANY(");
                reveal_strlit(")");
                reveal_strlit("get_by_any_");
                reveal_strlit("&[");
                reveal_strlit("]");
                assert(t@.fields[t@.id] == t.fields@[t.id as int]@);
            }
            let cols = t.select_column_list(PgBackend::dialect());
            let mut sql = "SELECT ".to_owned();
            sql.append(cols.as_str());
            sql.append(" FROM ");
            sql.append(t.table.as_str());
            sql.append(" WHERE ");
            let col = t.fields[i].column(PgBackend::dialect());
            sql.append(col.as_str());
            sql.append(" = ANY(");
            let ph = placeholder(PgBackend::dialect(), 0);
            sql.append(ph.as_str());
            sql.append(")");
            let name: String = match &g.func {
                Some(f) => f.clone(),
                None => {
                    let mut d = "get_by_any_".to_owned();
                    d.append(t.fields[i].field.as_str());
                    d
                },
            };
            let arg: String = match &g.arg_ty {
                Some(a) => a.clone(),
                None => {
                    let mut d = "&[".to_owned();
                    d.append(t.fields[i].ty.as_str());
                    d.append("]");
                    d
                },
            };
            let op = get_many(name, arg, sql);
            proof {
                assert(op@.sql =~= spec_get_by_any_sql(t@, i as int));
                assert(op@ == spec_any_ops(t@, i as int)[0]);
            }
            r.push(op);
        }
        proof {
            assert(pre.len() == spec_any_getters_upto(t@, i as int).len());
            assert(r.deep_view() =~= pre + spec_any_ops(t@, i as int));
            assert(r.deep_view() =~= spec_any_getters_upto(t@, i + 1));
        }
        i = i + 1;
    }
    r
}

impl PgBackend {
    /// Emits the insert statement, for tables that opted into
    /// insertion: one round trip that hands back every
    /// database-generated column through its returning clause, so the
    /// emitted entity is built from the caller-supplied values and the
    /// returned row alone.
    pub fn impl_insert(t: &Table) -> (r: Option<PgInsert>)
        requires
            t@.wf(),
        ensures
            r is Some <==> t@.insertable is Some,
            r matches Some(p) ==> {
                &&& p.sql@ == spec_pg_insert_sql(t@)
                &&& p.args.deep_view() == spec_pg_insert_args(t@)
                &&& (p.fetch_one <==> spec_default_idx(t@.fields).len() > 0)
            },
    {
        if t.insertable.is_none() {
            return None;
        }
        let nf = t.fields.len();
        proof {
            assert(t@.fields.len() == nf as int);
            reveal_strlit("INSERT INTO ");
            reveal_strlit(" (");
            reveal_strlit(") VALUES (");
            reveal_strlit(")");
            reveal_strlit(", ");
            reveal_strlit(" RETURNING ");
            assert(t.fields@.len() == t@.fields.len());
            lemma_insertable_idx_props(t@.fields);
            lemma_default_idx_props(t@.fields);
        }
        let idx = t.insertable_fields();
        let ghost gidx = spec_insertable_idx(t@.fields);
        let n = idx.len();
        let mut cols: Vec<String> = Vec::new();
        let mut marks: Vec<String> = Vec::new();
        let mut args: Vec<String> = Vec::new();
        let mut k: usize = 0;
        while k < n
            invariant
                k <= n,
                n == gidx.len(),
                idx@ == gidx,
                gidx == spec_insertable_idx(t@.fields),
                n <= nf,
                nf == t.fields@.len(),
                nf == t@.fields.len(),
                t@.fields == t.fields@.map_values(|f: TableField| f@),
                forall|j: int| 0 <= j < gidx.len() ==> #[trigger] gidx[j] < t@.fields.len(),
                cols@.len() == k,
                marks@.len() == k,
                args@.len() == k,
                forall|j: int|
                    0 <= j < k ==> (#[trigger] cols@[j])@ == spec_columns_at(
                        t@.fields,
                        gidx,
                        Backend::Postgres,
                    )[j],
                forall|j: int|
                    0 <= j < k ==> (#[trigger] marks@[j])@ == spec_value_placeholders(
                        gidx.len() as int,
                        Backend::Postgres,
                    )[j],
                forall|j: int| 0 <= j < k ==> (#[trigger] args@[j])@ == spec_pg_insert_args(t@)[j],
            decreases n - k,
        {
            let i = idx[k];
            proof {
                assert(gidx[k as int] < t@.fields.len());
                assert(t@.fields[i as int] == t.fields@[i as int]@);
            }
            let col = t.fields[i].column(PgBackend::dialect());
            cols.push(col);
            let mark = placeholder(PgBackend::dialect(), k as u64);
            marks.push(mark);
            let arg = t.fields[i].fmt_as_argument();
            args.push(arg);
            proof {
                assert(spec_pg_insert_args(t@).len() == gidx.len());
                assert(cols@[k as int]@ == spec_columns_at(t@.fields, gidx, Backend::Postgres)[
                k as int]);
                assert(marks@[k as int]@ == spec_value_placeholders(
                    gidx.len() as int,
                    Backend::Postgres,
                )[k as int]);
                assert(args@[k as int]@ == spec_pg_insert_args(t@)[k as int]);
            }
            k = k + 1;
        }
        proof {
            assert(spec_columns_at(t@.fields, gidx, Backend::Postgres).len() == n);
            assert(spec_value_placeholders(gidx.len() as int, Backend::Postgres).len() == n);
            assert(spec_pg_insert_args(t@).len() == n);
            assert(cols.deep_view() =~= spec_columns_at(t@.fields, gidx, Backend::Postgres));
            assert(marks.deep_view() =~= spec_value_placeholders(
                gidx.len() as int,
                Backend::Postgres,
            ));
            assert(args.deep_view() =~= spec_pg_insert_args(t@));
        }
        let col_list = join_strings(&cols, ", ");
        let mark_list = join_strings(&marks, ", ");
        let mut sql = "INSERT INTO ".to_owned();
        sql.append(t.table.as_str());
        sql.append(" (");
        sql.append(col_list.as_str());
        sql.append(") VALUES (");
        sql.append(mark_list.as_str());
        sql.append(")");
        // Database-generated columns come back in the same round trip.
        let didx = t.default_fields();
        let ghost gdidx = spec_default_idx(t@.fields);
        let fetch_one = didx.len() > 0;
        if fetch_one {
            let nd = didx.len();
            let mut parts: Vec<String> = Vec::new();
            let mut k: usize = 0;
            while k < nd
                invariant
                    k <= nd,
                    nd == gdidx.len(),
                    didx@ == gdidx,
                    t@.fields == t.fields@.map_values(|f: TableField| f@),
                    forall|j: int| 0 <= j < gdidx.len() ==> #[trigger] gdidx[j] < t@.fields.len(),
                    t.fields@.len() == t@.fields.len(),
                    parts@.len() == k,
                    forall|j: int|
                        0 <= j < k ==> (#[trigger] parts@[j])@ == spec_parts_at(
                            t@.fields,
                            gdidx,
                            Backend::Postgres,
                        )[j],
                decreases nd - k,
            {
                let i = didx[k];
                proof {
                    assert(gdidx[k as int] < t@.fields.len());
                    assert(t@.fields[i as int] == t.fields@[i as int]@);
                }
                let part = t.fields[i].fmt_for_select(PgBackend::dialect());
                parts.push(part);
                proof {
                    assert(parts@[k as int]@ == spec_parts_at(t@.fields, gdidx, Backend::Postgres)[
                    k as int]);
                }
                k = k + 1;
            }
            proof {
                assert(spec_parts_at(t@.fields, gdidx, Backend::Postgres).len() == nd);
                assert(parts.deep_view() =~= spec_parts_at(t@.fields, gdidx, Backend::Postgres));
            }
            let part_list = join_strings(&parts, ", ");
            sql.append(" RETURNING ");
            sql.append(part_list.as_str());
        }
        proof {
            assert(sql@ =~= spec_pg_insert_sql(t@));
        }
        Some(PgInsert { sql, args, fetch_one })
    }

    /// Emits every lookup of the table: the shared ones, then the
    /// set-membership lookups this dialect adds.
    pub fn impl_getters(t: &Table) -> (r: Vec<GetterOp>)
        requires
            t@.wf(),
        ensures
            r.deep_view() == spec_getters(t@, Backend::Postgres) + spec_any_getters(t@),
    {
        let mut r = getters(t, PgBackend::dialect());
        let mut any = impl_get_by_any_getter(t);
        let ghost before = r.deep_view();
        let ghost extra = any.deep_view();
        r.append(&mut any);
        proof {
            assert(r.deep_view() =~= before + extra);
        }
        r
    }
}

} // verus!
