//! Validated in-memory model of a table declaration, and the per-field
//! SQL fragments every emitter shares: the quoted column name, the
//! select-list entry, and the argument expression bound to a
//! placeholder.

use vstd::prelude::*;

use crate::attrs::{Getter, GetterV, Insertable, InsertableV};
use crate::backend::{spec_quote_char, Backend};
use crate::strutil::spec_join;

mod parse;

verus! {

use crate::backend::quote_str;

/// One field of a validated table model.
#[derive(Debug)]
pub struct TableField {
    /// The field's name in the entity type.
    pub field: String,
    /// The field's declared semantic type, as text.
    pub ty: String,
    /// The column backing the field.
    pub column_name: String,
    /// Decode through the declared semantic type.
    pub custom_type: bool,
    /// The field's name collides with a reserved word, so emission
    /// always quotes the column.
    pub reserved_ident: bool,
    /// The database generates this column's value.
    pub default: bool,
    pub get_one: Option<Getter>,
    pub get_optional: Option<Getter>,
    pub get_many: Option<Getter>,
    pub get_by_any: Option<Getter>,
    /// Name of the generated single-field setter, when one was asked for.
    pub set: Option<String>,
    /// Bind this field by reference.
    pub by_ref: bool,
    /// Annotations forwarded onto the insert helper's field, in
    /// declaration order, each as one line of text.
    pub insert_attrs: Vec<String>,
}

/// Mathematical model of a table field.
#[verifier::ext_equal]
pub ghost struct FieldV {
    pub field: Seq<char>,
    pub ty: Seq<char>,
    pub column_name: Seq<char>,
    pub custom_type: bool,
    pub reserved_ident: bool,
    pub default: bool,
    pub get_one: Option<GetterV>,
    pub get_optional: Option<GetterV>,
    pub get_many: Option<GetterV>,
    pub get_by_any: Option<GetterV>,
    pub set: Option<Seq<char>>,
    pub by_ref: bool,
    pub insert_attrs: Seq<Seq<char>>,
}

impl View for TableField {
    type V = FieldV;

    open spec fn view(&self) -> FieldV {
        FieldV {
            field: self.field@,
            ty: self.ty@,
            column_name: self.column_name@,
            custom_type: self.custom_type,
            reserved_ident: self.reserved_ident,
            default: self.default,
            get_one: match self.get_one {
                Some(g) => Some(g@),
                None => None,
            },
            get_optional: match self.get_optional {
                Some(g) => Some(g@),
                None => None,
            },
            get_many: match self.get_many {
                Some(g) => Some(g@),
                None => None,
            },
            get_by_any: match self.get_by_any {
                Some(g) => Some(g@),
                None => None,
            },
            set: match self.set {
                Some(s) => Some(s@),
                None => None,
            },
            by_ref: self.by_ref,
            insert_attrs: self.insert_attrs.deep_view(),
        }
    }
}

/// A validated table model: the unit every emitter works from.
#[derive(Debug)]
pub struct Table {
    /// The entity type's name.
    pub ident: String,
    /// The entity type's visibility, as text; emitted operations carry
    /// it onto the generated items.
    pub vis: String,
    /// The table's name in the database.
    pub table: String,
    /// Index of the identifier field within `fields`.
    pub id: usize,
    /// All fields, in declaration order; the order fixes the positional
    /// argument lists of every emitted statement.
    pub fields: Vec<TableField>,
    /// Name of the helper type carrying the insertable fields, when the
    /// table opted into insertion.
    pub insertable: Option<Insertable>,
    /// Whether a delete operation is emitted.
    pub deletable: bool,
}

/// Mathematical model of a table.
#[verifier::ext_equal]
pub ghost struct TableV {
    pub ident: Seq<char>,
    pub vis: Seq<char>,
    pub table: Seq<char>,
    pub id: int,
    pub fields: Seq<FieldV>,
    pub insertable: Option<InsertableV>,
    pub deletable: bool,
}

impl View for Table {
    type V = TableV;

    open spec fn view(&self) -> TableV {
        TableV {
            ident: self.ident@,
            vis: self.vis@,
            table: self.table@,
            id: self.id as int,
            fields: self.fields@.map_values(|f: TableField| f@),
            insertable: match self.insertable {
                Some(i) => Some(i@),
                None => None,
            },
            deletable: self.deletable,
        }
    }
}

impl TableV {
    /// Invariants every validated table satisfies: the identifier names
    /// an existing field, and a database-generated default is only
    /// declared on an insertable table (anywhere else the value could
    /// never be read back).
    pub open spec fn wf(self) -> bool {
        &&& 0 <= self.id < self.fields.len()
        &&& (forall|i: int|
            0 <= i < self.fields.len() && #[trigger] self.fields[i].default
                ==> self.insertable is Some)
    }
}

/// The column's name as emitted: wrapped in the dialect's quote
/// character when the field collides with a reserved word.
pub open spec fn spec_column(f: FieldV, b: Backend) -> Seq<char> {
    if f.reserved_ident {
        seq![spec_quote_char(b)] + f.column_name + seq![spec_quote_char(b)]
    } else {
        f.column_name
    }
}

/// The field's entry in a select column list: aliased to the field's
/// name when that differs from the column, and annotated so a
/// custom-typed column decodes into the declared semantic type.
pub open spec fn spec_fmt_for_select(f: FieldV, b: Backend) -> Seq<char> {
    if f.custom_type {
        spec_column(f, b) + " AS "@ + seq![spec_quote_char(b)] + f.field + ": _"@
            + seq![spec_quote_char(b)]
    } else if f.field == f.column_name {
        spec_column(f, b)
    } else {
        spec_column(f, b) + " AS "@ + f.field
    }
}

/// The expression handing the field's value to a statement.
pub open spec fn spec_fmt_as_argument(f: FieldV) -> Seq<char> {
    if f.by_ref {
        "&self."@ + f.field
    } else {
        "self."@ + f.field
    }
}

/// The select-list entries of all fields, in declaration order.
pub open spec fn spec_select_parts(fs: Seq<FieldV>, b: Backend) -> Seq<Seq<char>> {
    fs.map_values(|f: FieldV| spec_fmt_for_select(f, b))
}

/// The shared column list: every fetching statement embeds this text.
pub open spec fn spec_column_list(t: TableV, b: Backend) -> Seq<char> {
    spec_join(spec_select_parts(t.fields, b), ", "@)
}

/// Indices of the fields a caller supplies on insert: those without a
/// database-generated default, in declaration order.
pub open spec fn spec_insertable_idx(fs: Seq<FieldV>) -> Seq<usize>
    decreases fs.len(),
{
    if fs.len() == 0 {
        Seq::empty()
    } else {
        spec_insertable_idx(fs.drop_last())
            + if !fs.last().default {
                seq![(fs.len() - 1) as usize]
            } else {
                Seq::empty()
            }
    }
}

/// Indices of the fields whose value the database generates, in
/// declaration order.
pub open spec fn spec_default_idx(fs: Seq<FieldV>) -> Seq<usize>
    decreases fs.len(),
{
    if fs.len() == 0 {
        Seq::empty()
    } else {
        spec_default_idx(fs.drop_last())
            + if fs.last().default {
                seq![(fs.len() - 1) as usize]
            } else {
                Seq::empty()
            }
    }
}

/// Indices of the database-generated fields other than the one at
/// `skip`, in declaration order.
pub open spec fn spec_default_except_idx(fs: Seq<FieldV>, skip: int) -> Seq<usize>
    decreases fs.len(),
{
    if fs.len() == 0 {
        Seq::empty()
    } else {
        spec_default_except_idx(fs.drop_last(), skip)
            + if fs.last().default && fs.len() - 1 != skip {
                seq![(fs.len() - 1) as usize]
            } else {
                Seq::empty()
            }
    }
}

/// Indices of all fields, in declaration order.
pub open spec fn spec_all_idx(n: int) -> Seq<usize>
    decreases n,
{
    if n <= 0 {
        Seq::empty()
    } else {
        spec_all_idx(n - 1) + seq![(n - 1) as usize]
    }
}

/// Indices of all fields but the one at `skip`, in declaration order.
pub open spec fn spec_except_idx(n: int, skip: int) -> Seq<usize>
    decreases n,
{
    if n <= 0 {
        Seq::empty()
    } else {
        spec_except_idx(n - 1, skip)
            + if n - 1 != skip {
                seq![(n - 1) as usize]
            } else {
                Seq::empty()
            }
    }
}

impl TableField {
    /// The column's name as this field's statements emit it.
    pub fn column(&self, b: Backend) -> (r: String)
        ensures
            r@ == spec_column(self@, b),
    {
        if self.reserved_ident {
            let mut r = quote_str(b).to_owned();
            r.append(self.column_name.as_str());
            r.append(quote_str(b));
            proof {
                assert(r@ =~= spec_column(self@, b));
            }
            r
        } else {
            self.column_name.clone()
        }
    }

    /// This field's entry in a select column list.
    pub fn fmt_for_select(&self, b: Backend) -> (r: String)
        ensures
            r@ == spec_fmt_for_select(self@, b),
    {
        if self.custom_type {
            proof {
                reveal_strlit(" AS ");
                reveal_strlit(": _");
            }
            let mut r = self.column(b);
            r.append(" AS ");
            r.append(quote_str(b));
            r.append(self.field.as_str());
            r.append(": _");
            r.append(quote_str(b));
            proof {
                assert(r@ =~= spec_fmt_for_select(self@, b));
            }
            r
        } else if self.field == self.column_name {
            self.column(b)
        } else {
            proof {
                reveal_strlit(" AS ");
            }
            let mut r = self.column(b);
            r.append(" AS ");
            r.append(self.field.as_str());
            proof {
                assert(r@ =~= spec_fmt_for_select(self@, b));
            }
            r
        }
    }

    /// The expression handing this field's value to a statement.
    pub fn fmt_as_argument(&self) -> (r: String)
        ensures
            r@ == spec_fmt_as_argument(self@),
    {
        let mut r: String;
        if self.by_ref {
            proof {
                reveal_strlit("&self.");
            }
            r = "&self.".to_owned();
        } else {
            proof {
                reveal_strlit("self.");
            }
            r = "self.".to_owned();
        }
        r.append(self.field.as_str());
        proof {
            assert(r@ =~= spec_fmt_as_argument(self@));
        }
        r
    }
}

impl Getter {
    /// The generated lookup's name and argument type: the declared ones,
    /// or `by_<field>` and a reference to the field's own type.
    pub fn or_fallback(&self, field: &TableField) -> (r: (String, String))
        ensures
            r.0@ == match self@.func {
                Some(f) => f,
                None => "by_"@ + field@.field,
            },
            r.1@ == match self@.arg_ty {
                Some(t) => t,
                None => "&"@ + field@.ty,
            },
    {
        let name: String = match &self.func {
            Some(f) => f.clone(),
            None => {
                proof {
                    reveal_strlit("by_");
                }
                let mut n = "by_".to_owned();
                n.append(field.field.as_str());
                n
            },
        };
        let arg: String = match &self.arg_ty {
            Some(t) => t.clone(),
            None => {
                proof {
                    reveal_strlit("&");
                }
                let mut a = "&".to_owned();
                a.append(field.ty.as_str());
                a
            },
        };
        (name, arg)
    }
}

impl Table {
    /// Indices of all fields except the identifier, in declaration
    /// order: the order in which an update binds its values.
    pub fn fields_except_id(&self) -> (r: Vec<usize>)
        requires
            self@.wf(),
        ensures
            r@ == spec_except_idx(self@.fields.len() as int, self@.id),
    {
        let n = self.fields.len();
        let mut r: Vec<usize> = Vec::new();
        let mut i: usize = 0;
        while i < n
            invariant
                i <= n,
                n == self.fields@.len(),
                self@.id == self.id as int,
                r@ == spec_except_idx(i as int, self@.id),
            decreases n - i,
        {
            if i != self.id {
                r.push(i);
            }
            proof {
                assert(r@ =~= spec_except_idx(i + 1 as int, self@.id));
            }
            i = i + 1;
        }
        r
    }

    /// Indices of the fields a caller supplies on insert.
    pub fn insertable_fields(&self) -> (r: Vec<usize>)
        ensures
            r@ == spec_insertable_idx(self@.fields),
    {
        let n = self.fields.len();
        let mut r: Vec<usize> = Vec::new();
        let mut i: usize = 0;
        while i < n
            invariant
                i <= n,
                n == self.fields@.len(),
                self@.fields == self.fields@.map_values(|f: TableField| f@),
                r@ == spec_insertable_idx(self@.fields.take(i as int)),
            decreases n - i,
        {
            if !self.fields[i].default {
                r.push(i);
            }
            proof {
                assert(self@.fields.take(i + 1 as int).drop_last() =~= self@.fields.take(
                    i as int,
                ));
                assert(r@ =~= spec_insertable_idx(self@.fields.take(i + 1 as int)));
            }
            i = i + 1;
        }
        proof {
            assert(self@.fields.take(n as int) =~= self@.fields);
        }
        r
    }

    /// Indices of the fields whose value the database generates.
    pub fn default_fields(&self) -> (r: Vec<usize>)
        ensures
            r@ == spec_default_idx(self@.fields),
    {
        let n = self.fields.len();
        let mut r: Vec<usize> = Vec::new();
        let mut i: usize = 0;
        while i < n
            invariant
                i <= n,
                n == self.fields@.len(),
                self@.fields == self.fields@.map_values(|f: TableField| f@),
                r@ == spec_default_idx(self@.fields.take(i as int)),
            decreases n - i,
        {
            if self.fields[i].default {
                r.push(i);
            }
            proof {
                assert(self@.fields.take(i + 1 as int).drop_last() =~= self@.fields.take(
                    i as int,
                ));
                assert(r@ =~= spec_default_idx(self@.fields.take(i + 1 as int)));
            }
            i = i + 1;
        }
        proof {
            assert(self@.fields.take(n as int) =~= self@.fields);
        }
        r
    }

    /// The column list every fetching statement of this table embeds.
    pub fn select_column_list(&self, b: Backend) -> (r: String)
        ensures
            r@ == spec_column_list(self@, b),
    {
        let n = self.fields.len();
        let mut parts: Vec<String> = Vec::new();
        let mut i: usize = 0;
        while i < n
            invariant
                i <= n,
                n == self.fields@.len(),
                self@.fields == self.fields@.map_values(|f: TableField| f@),
                parts.deep_view() == spec_select_parts(self@.fields.take(i as int), b),
            decreases n - i,
        {
            let p = self.fields[i].fmt_for_select(b);
            parts.push(p);
            proof {
                let fsv = self@.fields;
                assert(fsv[i as int] == self.fields@[i as int]@);
                assert(spec_select_parts(fsv.take(i as int), b).len() == i);
                assert(parts@.len() == i + 1);
                assert(parts.deep_view().len() == i + 1);
                assert(spec_select_parts(fsv.take(i + 1), b).len() == i + 1);
                assert forall|j: int| 0 <= j < i + 1 implies parts.deep_view()[j]
                    == spec_select_parts(fsv.take(i + 1), b)[j] by {
                    assert(fsv.take(i + 1)[j] == fsv[j]);
                    assert(spec_select_parts(fsv.take(i + 1), b)[j] == spec_fmt_for_select(
                        fsv[j],
                        b,
                    ));
                    if j < i {
                        assert(parts.deep_view()[j] == spec_select_parts(fsv.take(i as int), b)[j]);
                        assert(spec_select_parts(fsv.take(i as int), b)[j] == spec_fmt_for_select(
                            fsv.take(i as int)[j],
                            b,
                        ));
                    }
                }
                assert(parts.deep_view() =~= spec_select_parts(fsv.take(i + 1), b));
            }
            i = i + 1;
        }
        proof {
            assert(self@.fields.take(n as int) =~= self@.fields);
            reveal_strlit(", ");
        }
        crate::strutil::join_strings(&parts, ", ")
    }
}

} // verus!
