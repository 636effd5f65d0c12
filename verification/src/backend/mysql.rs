//! Insert emission for the MySQL-style dialect, which cannot return
//! generated columns from the insert itself: the insert, the
//! last-inserted-identifier query, and the post-fetch of the remaining
//! generated columns run inside one unit of work.

use vstd::prelude::*;

use crate::backend::common::{
    lemma_insertable_idx_props, spec_columns_at, spec_parts_at, spec_value_placeholders, Operation,
};
use crate::backend::{placeholder, spec_placeholder, Backend, MySqlBackend};
use crate::strutil::{join_strings, spec_join};
use crate::table::{
    spec_column, spec_default_except_idx, spec_insertable_idx, Table, TableField, TableV,
};

verus! {

/// The three statements a MySQL-style insert consists of.
pub struct MySqlInsert {
    /// `INSERT INTO <table> (<columns>) VALUES (?, ...)` over the
    /// caller-supplied fields.
    pub insert: Operation,
    /// The query for the database-generated identifier; absent when the
    /// caller supplies the identifier itself.
    pub query_id: Option<String>,
    /// The fetch of the other database-generated columns, by the
    /// obtained identifier; absent when there are none.
    pub query_default: Option<Operation>,
}

/// `INSERT INTO <table> (<columns>) VALUES (?, ...)`.
pub open spec fn spec_mysql_insert_sql(t: TableV) -> Seq<char> {
    let idx = spec_insertable_idx(t.fields);
    "INSERT INTO "@ + t.table + " ("@ + spec_join(
        spec_columns_at(t.fields, idx, Backend::MySql),
        ", "@,
    ) + ") VALUES ("@ + spec_join(
        spec_value_placeholders(idx.len() as int, Backend::MySql),
        ", "@,
    ) + ")"@
}

/// The insert binds the caller-supplied fields in declaration order.
pub open spec fn spec_mysql_insert_args(t: TableV) -> Seq<Seq<char>> {
    spec_insertable_idx(t.fields).map_values(|i: usize| "self."@ + t.fields[i as int].field)
}

/// The dialect's query for the identifier the insert generated.
pub open spec fn spec_mysql_query_id_sql() -> Seq<char> {
    "SELECT LAST_INSERT_ID() AS id"@
}

/// The post-fetch of the generated columns other than the identifier,
/// rendered with the shared select-list entries.
pub open spec fn spec_mysql_query_default_sql(t: TableV) -> Seq<char> {
    "SELECT "@ + spec_join(
        spec_parts_at(t.fields, spec_default_except_idx(t.fields, t.id), Backend::MySql),
        ", "@,
    ) + " FROM "@ + t.table + " WHERE "@ + spec_column(t.fields[t.id], Backend::MySql) + " = ?"@
}

impl MySqlBackend {
    /// Emits the insert plan, for tables that opted into insertion: the
    /// insert itself; the identifier query, when the database generates
    /// the identifier; and the post-fetch of the other generated
    /// columns, when there are any. The emitted entity is built from
    /// the caller-supplied values, the obtained identifier, and the
    /// fetched-back columns.
    pub fn impl_insert(t: &Table) -> (r: Option<MySqlInsert>)
        requires
            t@.wf(),
        ensures
            r is Some <==> t@.insertable is Some,
            r matches Some(p) ==> {
                &&& p.insert@.sql == spec_mysql_insert_sql(t@)
                &&& p.insert@.args == spec_mysql_insert_args(t@)
                &&& (p.query_id is Some <==> t@.fields[t@.id].default)
                &&& (p.query_id matches Some(q) ==> q@ == spec_mysql_query_id_sql())
                &&& (p.query_default is Some <==> spec_default_except_idx(t@.fields, t@.id).len()
                    > 0)
                &&& (p.query_default matches Some(op) ==> op@.sql == spec_mysql_query_default_sql(
                    t@,
                ) && op@.args == seq!["_id"@])
            },
    {
        if t.insertable.is_none() {
            return None;
        }
        let nf = t.fields.len();
        proof {
            assert(t@.fields.len() == nf as int);
            reveal_strlit("INSERT INTO ");
            reveal_strlit(" (");
            reveal_strlit(") VALUES (");
            reveal_strlit(")");
            reveal_strlit(", ");
            reveal_strlit("self.");
            assert(t.fields@.len() == t@.fields.len());
            lemma_insertable_idx_props(t@.fields);
        }
        let idx = t.insertable_fields();
        let ghost gidx = spec_insertable_idx(t@.fields);
        let n = idx.len();
        let mut cols: Vec<String> = Vec::new();
        let mut marks: Vec<String> = Vec::new();
        let mut args: Vec<String> = Vec::new();
        let mut k: usize = 0;
        while k < n
            invariant
                k <= n,
                n == gidx.len(),
                idx@ == gidx,
                gidx == spec_insertable_idx(t@.fields),
                n <= nf,
                nf == t.fields@.len(),
                nf == t@.fields.len(),
                t@.fields == t.fields@.map_values(|f: TableField| f@),
                forall|j: int| 0 <= j < gidx.len() ==> #[trigger] gidx[j] < t@.fields.len(),
                cols@.len() == k,
                marks@.len() == k,
                args@.len() == k,
                forall|j: int|
                    0 <= j < k ==> (#[trigger] cols@[j])@ == spec_columns_at(
                        t@.fields,
                        gidx,
                        Backend::MySql,
                    )[j],
                forall|j: int|
                    0 <= j < k ==> (#[trigger] marks@[j])@ == spec_value_placeholders(
                        gidx.len() as int,
                        Backend::MySql,
                    )[j],
                forall|j: int|
                    0 <= j < k ==> (#[trigger] args@[j])@ == spec_mysql_insert_args(t@)[j],
            decreases n - k,
        {
            let i = idx[k];
            proof {
                assert(gidx[k as int] < t@.fields.len());
                assert(t@.fields[i as int] == t.fields@[i as int]@);
                reveal_strlit("self.");
            }
            let col = t.fields[i].column(MySqlBackend::dialect());
            cols.push(col);
            let mark = placeholder(MySqlBackend::dialect(), k as u64);
            marks.push(mark);
            let mut arg = "self.".to_owned();
            arg.append(t.fields[i].field.as_str());
            args.push(arg);
            proof {
                assert(spec_mysql_insert_args(t@).len() == gidx.len());
                assert(spec_mysql_insert_args(t@)[k as int] == "self."@ + t@.fields[
                gidx[k as int] as int].field);
                assert(cols@[k as int]@ == spec_columns_at(t@.fields, gidx, Backend::MySql)[
                k as int]);
                assert(marks@[k as int]@ == spec_value_placeholders(
                    gidx.len() as int,
                    Backend::MySql,
                )[k as int]);
                assert(args@[k as int]@ == spec_mysql_insert_args(t@)[k as int]);
            }
            k = k + 1;
        }
        proof {
            assert(spec_columns_at(t@.fields, gidx, Backend::MySql).len() == n);
            assert(spec_value_placeholders(gidx.len() as int, Backend::MySql).len() == n);
            assert(spec_mysql_insert_args(t@).len() == n);
            assert(cols.deep_view() =~= spec_columns_at(t@.fields, gidx, Backend::MySql));
            assert(marks.deep_view() =~= spec_value_placeholders(
                gidx.len() as int,
                Backend::MySql,
            ));
            assert(args.deep_view() =~= spec_mysql_insert_args(t@));
        }
        let col_list = join_strings(&cols, ", ");
        let mark_list = join_strings(&marks, ", ");
        let mut sql = "INSERT INTO ".to_owned();
        sql.append(t.table.as_str());
        sql.append(" (");
        sql.append(col_list.as_str());
        sql.append(") VALUES (");
        sql.append(mark_list.as_str());
        sql.append(")");
        proof {
            assert(sql@ =~= spec_mysql_insert_sql(t@));
        }
        let insert = Operation { sql, args };
        // The identifier: generated by the database, or already known.
        let query_id: Option<String> = if t.fields[t.id].default {
            proof {
                reveal_strlit("SELECT LAST_INSERT_ID() AS id");
            }
            Some("SELECT LAST_INSERT_ID() AS id".to_owned())
        } else {
            None
        };
        // The other generated columns are fetched back by that
        // identifier, inside the same unit of work.
        let didx = default_fields_except_id(t);
        let ghost gdidx = spec_default_except_idx(t@.fields, t@.id);
        let query_default: Option<Operation> = if didx.len() > 0 {
            proof {
                reveal_strlit("SELECT ");
                reveal_strlit(" FROM ");
                reveal_strlit(" WHERE ");
                reveal_strlit(" = ?");
                reveal_strlit(", ");
                reveal_strlit("_id");
                crate::backend::common::lemma_default_except_idx_props(t@.fields, t@.id);
            }
            let nd = didx.len();
            let mut parts: Vec<String> = Vec::new();
            let mut k: usize = 0;
            while k < nd
                invariant
                    k <= nd,
                    nd == gdidx.len(),
                    didx@ == gdidx,
                    t@.fields == t.fields@.map_values(|f: TableField| f@),
                    forall|j: int| 0 <= j < gdidx.len() ==> #[trigger] gdidx[j] < t@.fields.len(),
                    t.fields@.len() == t@.fields.len(),
                    parts@.len() == k,
                    forall|j: int|
                        0 <= j < k ==> (#[trigger] parts@[j])@ == spec_parts_at(
                            t@.fields,
                            gdidx,
                            Backend::MySql,
                        )[j],
                decreases nd - k,
            {
                let i = didx[k];
                proof {
                    assert(gdidx[k as int] < t@.fields.len());
                    assert(t@.fields[i as int] == t.fields@[i as int]@);
                }
                let part = t.fields[i].fmt_for_select(MySqlBackend::dialect());
                parts.push(part);
                proof {
                    assert(parts@[k as int]@ == spec_parts_at(t@.fields, gdidx, Backend::MySql)[
                    k as int]);
                }
                k = k + 1;
            }
            proof {
                assert(spec_parts_at(t@.fields, gdidx, Backend::MySql).len() == nd);
                assert(parts.deep_view() =~= spec_parts_at(t@.fields, gdidx, Backend::MySql));
                assert(t@.fields[t.id as int] == t.fields@[t.id as int]@);
            }
            let part_list = join_strings(&parts, ", ");
            let mut dsql = "SELECT ".to_owned();
            dsql.append(part_list.as_str());
            dsql.append(" FROM ");
            dsql.append(t.table.as_str());
            dsql.append(" WHERE ");
            let idcol = t.fields[t.id].column(MySqlBackend::dialect());
            dsql.append(idcol.as_str());
            dsql.append(" = ?");
            let mut dargs: Vec<String> = Vec::new();
            dargs.push("_id".to_owned());
            proof {
                assert(dsql@ =~= spec_mysql_query_default_sql(t@));
                assert(dargs.deep_view() =~= seq!["_id"@]);
            }
            Some(Operation { sql: dsql, args: dargs })
        } else {
            None
        };
        proof {
            assert(t@.fields[t.id as int] == t.fields@[t.id as int]@);
        }
        Some(MySqlInsert { insert, query_id, query_default })
    }
}

/// Indices of the database-generated fields other than the identifier.
pub fn default_fields_except_id(t: &Table) -> (r: Vec<usize>)
    requires
        t@.wf(),
    ensures
        r@ == spec_default_except_idx(t@.fields, t@.id),
{
    let n = t.fields.len();
    let mut r: Vec<usize> = Vec::new();
    let mut i: usize = 0;
    while i < n
        invariant
            i <= n,
            n == t.fields@.len(),
            t@.id == t.id as int,
            t@.fields == t.fields@.map_values(|f: TableField| f@),
            r@ == spec_default_except_idx(t@.fields.take(i as int), t@.id),
        decreases n - i,
    {
        if t.fields[i].default && i != t.id {
            r.push(i);
        }
        proof {
            assert(t@.fields.take(i + 1).drop_last() =~= t@.fields.take(i as int));
            assert(t@.fields[i as int] == t.fields@[i as int]@);
            assert(r@ =~= spec_default_except_idx(t@.fields.take(i + 1), t@.id));
        }
        i = i + 1;
    }
    proof {
        assert(t@.fields.take(n as int) =~= t@.fields);
    }
    r
}

} // verus!
