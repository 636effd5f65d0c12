//! Folds raw table and field declarations into the validated model,
//! detecting duplicate, missing, and contradictory options.

use vstd::prelude::*;

use crate::attrs::{
    missing_attr, opt_str_view, FieldDecl, Getter, GetterV, Insertable, InsertableV, SchemaError,
    TableAttr, TableDecl, TableFieldAttr,
};
use crate::backend::{is_reserved, spec_is_reserved, Backend};
use crate::strutil::clone_string_vec;
use crate::table::{FieldV, Table, TableField, TableV};

verus! {

/// Which option a field-level declaration sets; two declarations of the
/// same option on one field are a duplicate.
pub open spec fn spec_field_attr_slot(a: TableFieldAttr) -> int {
    match a {
        TableFieldAttr::Column(_) => 0,
        TableFieldAttr::CustomType => 1,
        TableFieldAttr::DefaultGenerated => 2,
        TableFieldAttr::GetOne(_) => 3,
        TableFieldAttr::GetOptional(_) => 4,
        TableFieldAttr::GetMany(_) => 5,
        TableFieldAttr::GetByAny(_) => 6,
        TableFieldAttr::Setter(_) => 7,
        TableFieldAttr::ByRef => 8,
        TableFieldAttr::InsertAttr(_) => 9,
    }
}

/// Whether some option is declared twice in `s`. Forwarded annotations
/// are exempt: declaring them repeatedly appends.
pub open spec fn spec_field_dup(s: Seq<TableFieldAttr>) -> bool {
    exists|p: int, q: int|
        0 <= p < q < s.len() && #[trigger] spec_field_attr_slot(s[p])
            == #[trigger] spec_field_attr_slot(s[q]) && !(s[p] is InsertAttr)
}

/// The value of the first `column` declaration in `s`, if any.
pub open spec fn spec_first_column(s: Seq<TableFieldAttr>) -> Option<Seq<char>>
    decreases s.len(),
{
    if s.len() == 0 {
        None
    } else if spec_first_column(s.drop_last()) is Some {
        spec_first_column(s.drop_last())
    } else {
        match s.last() {
            TableFieldAttr::Column(c) => Some(c@),
            _ => None,
        }
    }
}

/// The first `get_one` declaration in `s`, if any.
pub open spec fn spec_first_get_one(s: Seq<TableFieldAttr>) -> Option<GetterV>
    decreases s.len(),
{
    if s.len() == 0 {
        None
    } else if spec_first_get_one(s.drop_last()) is Some {
        spec_first_get_one(s.drop_last())
    } else {
        match s.last() {
            TableFieldAttr::GetOne(g) => Some(g@),
            _ => None,
        }
    }
}

/// The first `get_optional` declaration in `s`, if any.
pub open spec fn spec_first_get_optional(s: Seq<TableFieldAttr>) -> Option<GetterV>
    decreases s.len(),
{
    if s.len() == 0 {
        None
    } else if spec_first_get_optional(s.drop_last()) is Some {
        spec_first_get_optional(s.drop_last())
    } else {
        match s.last() {
            TableFieldAttr::GetOptional(g) => Some(g@),
            _ => None,
        }
    }
}

/// The first `get_many` declaration in `s`, if any.
pub open spec fn spec_first_get_many(s: Seq<TableFieldAttr>) -> Option<GetterV>
    decreases s.len(),
{
    if s.len() == 0 {
        None
    } else if spec_first_get_many(s.drop_last()) is Some {
        spec_first_get_many(s.drop_last())
    } else {
        match s.last() {
            TableFieldAttr::GetMany(g) => Some(g@),
            _ => None,
        }
    }
}

/// The first `get_by_any` declaration in `s`, if any.
pub open spec fn spec_first_get_by_any(s: Seq<TableFieldAttr>) -> Option<GetterV>
    decreases s.len(),
{
    if s.len() == 0 {
        None
    } else if spec_first_get_by_any(s.drop_last()) is Some {
        spec_first_get_by_any(s.drop_last())
    } else {
        match s.last() {
            TableFieldAttr::GetByAny(g) => Some(g@),
            _ => None,
        }
    }
}

/// The generated setter's name, from the first `set` declaration in `s`:
/// the declared name, or `set_<field>` when left to the default.
pub open spec fn spec_setter_name(s: Seq<TableFieldAttr>, field: Seq<char>) -> Option<Seq<char>>
    decreases s.len(),
{
    if s.len() == 0 {
        None
    } else if spec_setter_name(s.drop_last(), field) is Some {
        spec_setter_name(s.drop_last(), field)
    } else {
        match s.last() {
            TableFieldAttr::Setter(o) => Some(
                match o {
                    Some(n) => n@,
                    None => "set_"@ + field,
                },
            ),
            _ => None,
        }
    }
}

/// Whether `custom_type` is declared in `s`.
pub open spec fn spec_has_custom(s: Seq<TableFieldAttr>) -> bool
    decreases s.len(),
{
    if s.len() == 0 {
        false
    } else {
        spec_has_custom(s.drop_last()) || s.last() is CustomType
    }
}

/// Whether `default` is declared in `s`.
pub open spec fn spec_has_default(s: Seq<TableFieldAttr>) -> bool
    decreases s.len(),
{
    if s.len() == 0 {
        false
    } else {
        spec_has_default(s.drop_last()) || s.last() is DefaultGenerated
    }
}

/// Whether `by_ref` is declared in `s`.
pub open spec fn spec_has_by_ref(s: Seq<TableFieldAttr>) -> bool
    decreases s.len(),
{
    if s.len() == 0 {
        false
    } else {
        spec_has_by_ref(s.drop_last()) || s.last() is ByRef
    }
}

/// The annotations forwarded onto the insert helper's field: every
/// `InsertAttr` declaration's lines, in declaration order.
pub open spec fn spec_insert_attrs(s: Seq<TableFieldAttr>) -> Seq<Seq<char>>
    decreases s.len(),
{
    if s.len() == 0 {
        Seq::empty()
    } else {
        spec_insert_attrs(s.drop_last())
            + match s.last() {
                TableFieldAttr::InsertAttr(a) => a.deep_view(),
                _ => Seq::empty(),
            }
    }
}

/// The field model that a duplicate-free declaration folds into:
/// the column name defaults to the field's own name, flags default to
/// off, and the reserved mark is computed against the dialect.
pub open spec fn spec_parse_field(
    name: Seq<char>,
    ty: Seq<char>,
    attrs: Seq<TableFieldAttr>,
    b: Backend,
) -> FieldV {
    FieldV {
        field: name,
        ty: ty,
        column_name: match spec_first_column(attrs) {
            Some(c) => c,
            None => name,
        },
        custom_type: spec_has_custom(attrs),
        reserved_ident: spec_is_reserved(b, name),
        default: spec_has_default(attrs),
        get_one: spec_first_get_one(attrs),
        get_optional: spec_first_get_optional(attrs),
        get_many: spec_first_get_many(attrs),
        get_by_any: spec_first_get_by_any(attrs),
        set: spec_setter_name(attrs, name),
        by_ref: spec_has_by_ref(attrs),
        insert_attrs: spec_insert_attrs(attrs),
    }
}

fn field_attr_slot(a: &TableFieldAttr) -> (r: u32)
    ensures
        r as int == spec_field_attr_slot(*a),
{
    match a {
        TableFieldAttr::Column(_) => 0,
        TableFieldAttr::CustomType => 1,
        TableFieldAttr::DefaultGenerated => 2,
        TableFieldAttr::GetOne(_) => 3,
        TableFieldAttr::GetOptional(_) => 4,
        TableFieldAttr::GetMany(_) => 5,
        TableFieldAttr::GetByAny(_) => 6,
        TableFieldAttr::Setter(_) => 7,
        TableFieldAttr::ByRef => 8,
        TableFieldAttr::InsertAttr(_) => 9,
    }
}

fn field_attrs_dup(attrs: &Vec<TableFieldAttr>) -> (r: bool)
    ensures
        r == spec_field_dup(attrs@),
{
    let n = attrs.len();
    let mut i: usize = 0;
    while i < n
        invariant
            i <= n,
            n == attrs@.len(),
            forall|p: int, q: int|
                0 <= p < q < n && p < i && !(attrs@[p] is InsertAttr)
                    ==> #[trigger] spec_field_attr_slot(attrs@[p])
                    != #[trigger] spec_field_attr_slot(attrs@[q]),
        decreases n - i,
    {
        let si = field_attr_slot(&attrs[i]);
        if si != 9 {
            let mut j: usize = i + 1;
            while j < n
                invariant
                    i < j <= n,
                    n == attrs@.len(),
                    si as int == spec_field_attr_slot(attrs@[i as int]),
                    si != 9,
                    !(attrs@[i as int] is InsertAttr),
                    forall|q: int|
                        i < q < j ==> #[trigger] spec_field_attr_slot(attrs@[q]) != si as int,
                decreases n - j,
            {
                if si == field_attr_slot(&attrs[j]) {
                    proof {
                        assert(spec_field_attr_slot(attrs@[i as int]) == spec_field_attr_slot(
                            attrs@[j as int],
                        ));
                    }
                    return true;
                }
                j = j + 1;
            }
        }
        i = i + 1;
    }
    false
}

impl TableField {
    /// Folds one field declaration into its validated model. Fails,
    /// with `DuplicateAttribute`, exactly when an option is declared
    /// twice on the field.
    pub fn try_from(decl: &FieldDecl, b: Backend) -> (r: Result<TableField, SchemaError>)
        ensures
            r is Ok <==> !spec_field_dup(decl.attrs@),
            r matches Ok(f) ==> f@ == spec_parse_field(decl.name@, decl.ty@, decl.attrs@, b),
            r matches Err(e) ==> e == SchemaError::DuplicateAttribute,
    {
        if field_attrs_dup(&decl.attrs) {
            return Err(SchemaError::DuplicateAttribute);
        }
        let reserved_ident = is_reserved(b, decl.name.as_str());
        let mut column: Option<String> = None;
        let mut custom_type: bool = false;
        let mut default: bool = false;
        let mut by_ref: bool = false;
        let mut get_one: Option<Getter> = None;
        let mut get_optional: Option<Getter> = None;
        let mut get_many: Option<Getter> = None;
        let mut get_by_any: Option<Getter> = None;
        let mut setter: Option<String> = None;
        let mut insert_attrs: Vec<String> = Vec::new();
        proof {
            assert(insert_attrs.deep_view() =~= spec_insert_attrs(decl.attrs@.take(0)));
        }
        let n = decl.attrs.len();
        let mut i: usize = 0;
        while i < n
            invariant
                i <= n,
                n == decl.attrs@.len(),
                opt_str_view(column) == spec_first_column(decl.attrs@.take(i as int)),
                custom_type == spec_has_custom(decl.attrs@.take(i as int)),
                default == spec_has_default(decl.attrs@.take(i as int)),
                by_ref == spec_has_by_ref(decl.attrs@.take(i as int)),
                opt_getter_view(get_one) == spec_first_get_one(decl.attrs@.take(i as int)),
                opt_getter_view(get_optional) == spec_first_get_optional(
                    decl.attrs@.take(i as int),
                ),
                opt_getter_view(get_many) == spec_first_get_many(decl.attrs@.take(i as int)),
                opt_getter_view(get_by_any) == spec_first_get_by_any(decl.attrs@.take(i as int)),
                opt_str_view(setter) == spec_setter_name(decl.attrs@.take(i as int), decl.name@),
                insert_attrs.deep_view() == spec_insert_attrs(decl.attrs@.take(i as int)),
            decreases n - i,
        {
            proof {
                assert(decl.attrs@.take(i + 1).drop_last() =~= decl.attrs@.take(i as int));
                assert(decl.attrs@.take(i + 1).last() == decl.attrs@[i as int]);
            }
            match &decl.attrs[i] {
                TableFieldAttr::Column(c) => {
                    if column.is_none() {
                        column = Some(c.clone());
                    }
                },
                TableFieldAttr::CustomType => {
                    custom_type = true;
                },
                TableFieldAttr::DefaultGenerated => {
                    default = true;
                },
                TableFieldAttr::ByRef => {
                    by_ref = true;
                },
                TableFieldAttr::GetOne(g) => {
                    if get_one.is_none() {
                        get_one = Some(g.clone());
                    }
                },
                TableFieldAttr::GetOptional(g) => {
                    if get_optional.is_none() {
                        get_optional = Some(g.clone());
                    }
                },
                TableFieldAttr::GetMany(g) => {
                    if get_many.is_none() {
                        get_many = Some(g.clone());
                    }
                },
                TableFieldAttr::GetByAny(g) => {
                    if get_by_any.is_none() {
                        get_by_any = Some(g.clone());
                    }
                },
                TableFieldAttr::Setter(o) => {
                    if setter.is_none() {
                        let name: String = match o {
                            Some(x) => x.clone(),
                            None => {
                                proof {
                                    reveal_strlit("set_");
                                }
                                let mut d = "set_".to_owned();
                                d.append(decl.name.as_str());
                                d
                            },
                        };
                        setter = Some(name);
                    }
                },
                TableFieldAttr::InsertAttr(a) => {
                    let ghost before = insert_attrs.deep_view();
                    let mut more = clone_string_vec(a);
                    insert_attrs.append(&mut more);
                    proof {
                        assert(insert_attrs.deep_view() =~= before + a.deep_view());
                    }
                },
            }
            proof {
                assert(insert_attrs.deep_view() =~= spec_insert_attrs(decl.attrs@.take(i + 1)));
            }
            i = i + 1;
        }
        proof {
            assert(decl.attrs@.take(n as int) =~= decl.attrs@);
        }
        let f = TableField {
            field: decl.name.clone(),
            ty: decl.ty.clone(),
            column_name: match column {
                Some(c) => c,
                None => decl.name.clone(),
            },
            custom_type,
            reserved_ident,
            default,
            get_one,
            get_optional,
            get_many,
            get_by_any,
            set: setter,
            by_ref,
            insert_attrs,
        };
        proof {
            assert(f@ =~= spec_parse_field(decl.name@, decl.ty@, decl.attrs@, b));
        }
        Ok(f)
    }
}

/// The view of an optional lookup declaration.
pub open spec fn opt_getter_view(o: Option<Getter>) -> Option<GetterV> {
    match o {
        Some(g) => Some(g@),
        None => None,
    }
}

/// Which option a table-level declaration sets.
pub open spec fn spec_table_attr_slot(a: TableAttr) -> int {
    match a {
        TableAttr::Table(_) => 0,
        TableAttr::Id(_) => 1,
        TableAttr::Insertable(_) => 2,
        TableAttr::Deletable => 3,
    }
}

/// Whether some table-level option is declared twice in `s`.
pub open spec fn spec_table_dup(s: Seq<TableAttr>) -> bool {
    exists|p: int, q: int|
        0 <= p < q < s.len() && #[trigger] spec_table_attr_slot(s[p])
            == #[trigger] spec_table_attr_slot(s[q])
}

/// The value of the first `table` declaration in `s`, if any.
pub open spec fn spec_first_table(s: Seq<TableAttr>) -> Option<Seq<char>>
    decreases s.len(),
{
    if s.len() == 0 {
        None
    } else if spec_first_table(s.drop_last()) is Some {
        spec_first_table(s.drop_last())
    } else {
        match s.last() {
            TableAttr::Table(t) => Some(t@),
            _ => None,
        }
    }
}

/// The value of the first `id` declaration in `s`, if any.
pub open spec fn spec_first_id(s: Seq<TableAttr>) -> Option<Seq<char>>
    decreases s.len(),
{
    if s.len() == 0 {
        None
    } else if spec_first_id(s.drop_last()) is Some {
        spec_first_id(s.drop_last())
    } else {
        match s.last() {
            TableAttr::Id(i) => Some(i@),
            _ => None,
        }
    }
}

/// The insert helper's declaration, from the first `insertable` option
/// in `s`: the declared name and carried annotations, or `Insert<entity>`
/// with none when left to the default.
pub open spec fn spec_first_insertable(s: Seq<TableAttr>, ident: Seq<char>) -> Option<InsertableV>
    decreases s.len(),
{
    if s.len() == 0 {
        None
    } else if spec_first_insertable(s.drop_last(), ident) is Some {
        spec_first_insertable(s.drop_last(), ident)
    } else {
        match s.last() {
            TableAttr::Insertable(o) => Some(
                match o {
                    Some(ins) => ins@,
                    None => InsertableV { ident: "Insert"@ + ident, attrs: Seq::empty() },
                },
            ),
            _ => None,
        }
    }
}

/// Whether `deletable` is declared in `s`.
pub open spec fn spec_has_deletable(s: Seq<TableAttr>) -> bool
    decreases s.len(),
{
    if s.len() == 0 {
        false
    } else {
        spec_has_deletable(s.drop_last()) || s.last() is Deletable
    }
}

/// Whether some field of the declaration carries a duplicate option.
pub open spec fn spec_any_field_dup(fs: Seq<FieldDecl>) -> bool {
    exists|i: int| 0 <= i < fs.len() && spec_field_dup(#[trigger] fs[i].attrs@)
}

/// Whether some field of the declaration is marked default-generated.
pub open spec fn spec_any_field_default(fs: Seq<FieldDecl>) -> bool {
    exists|i: int| 0 <= i < fs.len() && spec_has_default(#[trigger] fs[i].attrs@)
}

/// Index of the first field named `name`, if any.
pub open spec fn spec_find_field(fs: Seq<FieldDecl>, name: Seq<char>) -> Option<int>
    decreases fs.len(),
{
    if fs.len() == 0 {
        None
    } else if fs[0].name@ == name {
        Some(0)
    } else {
        match spec_find_field(fs.drop_first(), name) {
            Some(i) => Some(i + 1),
            None => None,
        }
    }
}

proof fn lemma_find_field_some(fs: Seq<FieldDecl>, name: Seq<char>, i: int)
    requires
        0 <= i < fs.len(),
        forall|j: int| 0 <= j < i ==> (#[trigger] fs[j].name)@ != name,
        fs[i].name@ == name,
    ensures
        spec_find_field(fs, name) == Some(i),
    decreases i,
{
    if i > 0 {
        lemma_find_field_some(fs.drop_first(), name, i - 1);
    }
}

proof fn lemma_find_field_none(fs: Seq<FieldDecl>, name: Seq<char>)
    requires
        forall|j: int| 0 <= j < fs.len() ==> (#[trigger] fs[j].name)@ != name,
    ensures
        spec_find_field(fs, name) is None,
    decreases fs.len(),
{
    if fs.len() > 0 {
        lemma_find_field_none(fs.drop_first(), name);
    }
}

/// Finds the first field named `name`, scanning in declaration order.
fn find_field(fields: &Vec<FieldDecl>, name: &String) -> (r: Option<usize>)
    ensures
        (match r {
            Some(i) => Some(i as int),
            None => None,
        }) == spec_find_field(fields@, name@),
        r matches Some(i) ==> i < fields@.len(),
{
    let n = fields.len();
    let mut i: usize = 0;
    while i < n
        invariant
            i <= n,
            n == fields@.len(),
            forall|j: int| 0 <= j < i ==> (#[trigger] fields@[j].name)@ != name@,
        decreases n - i,
    {
        if fields[i].name == *name {
            proof {
                lemma_find_field_some(fields@, name@, i as int);
            }
            return Some(i);
        }
        i = i + 1;
    }
    proof {
        lemma_find_field_none(fields@, name@);
    }
    None
}

/// The field models of a whole declaration, in declaration order.
pub open spec fn spec_parse_fields(fs: Seq<FieldDecl>, b: Backend) -> Seq<FieldV> {
    fs.map_values(|fd: FieldDecl| spec_parse_field(fd.name@, fd.ty@, fd.attrs@, b))
}

/// Whether some option of the declaration, field- or table-level, is a
/// duplicate.
pub open spec fn spec_table_any_dup(d: TableDecl) -> bool {
    spec_any_field_dup(d.fields@) || spec_table_dup(d.attrs@)
}

/// Whether the declared identifier names an existing field.
pub open spec fn spec_table_id_ok(d: TableDecl) -> bool {
    &&& spec_first_id(d.attrs@) is Some
    &&& spec_find_field(
        d.fields@,
        match spec_first_id(d.attrs@) {
            Some(n) => n,
            None => Seq::empty(),
        },
    ) is Some
}

/// Whether every default-generated field could be read back: there is
/// none, or the table is insertable.
pub open spec fn spec_table_default_ok(d: TableDecl) -> bool {
    spec_any_field_default(d.fields@) ==> spec_first_insertable(d.attrs@, d.ident@) is Some
}

/// Whether the whole declaration validates.
pub open spec fn spec_table_ok(d: TableDecl) -> bool {
    &&& !spec_table_any_dup(d)
    &&& spec_table_id_ok(d)
    &&& spec_table_default_ok(d)
    &&& spec_first_table(d.attrs@) is Some
}

/// The table model that a valid declaration folds into.
pub open spec fn spec_parse_table(d: TableDecl, b: Backend) -> TableV {
    TableV {
        ident: d.ident@,
        vis: d.vis@,
        table: match spec_first_table(d.attrs@) {
            Some(t) => t,
            None => Seq::empty(),
        },
        id: match spec_find_field(
            d.fields@,
            match spec_first_id(d.attrs@) {
                Some(n) => n,
                None => Seq::empty(),
            },
        ) {
            Some(i) => i,
            None => 0,
        },
        fields: spec_parse_fields(d.fields@, b),
        insertable: spec_first_insertable(d.attrs@, d.ident@),
        deletable: spec_has_deletable(d.attrs@),
    }
}

fn table_attr_slot(a: &TableAttr) -> (r: u32)
    ensures
        r as int == spec_table_attr_slot(*a),
{
    match a {
        TableAttr::Table(_) => 0,
        TableAttr::Id(_) => 1,
        TableAttr::Insertable(_) => 2,
        TableAttr::Deletable => 3,
    }
}

fn table_attrs_dup(attrs: &Vec<TableAttr>) -> (r: bool)
    ensures
        r == spec_table_dup(attrs@),
{
    let n = attrs.len();
    let mut i: usize = 0;
    while i < n
        invariant
            i <= n,
            n == attrs@.len(),
            forall|p: int, q: int|
                0 <= p < q < n && p < i ==> #[trigger] spec_table_attr_slot(attrs@[p])
                    != #[trigger] spec_table_attr_slot(attrs@[q]),
        decreases n - i,
    {
        let si = table_attr_slot(&attrs[i]);
        let mut j: usize = i + 1;
        while j < n
            invariant
                i < j <= n,
                n == attrs@.len(),
                si as int == spec_table_attr_slot(attrs@[i as int]),
                forall|q: int|
                    i < q < j ==> #[trigger] spec_table_attr_slot(attrs@[q]) != si as int,
            decreases n - j,
        {
            if si == table_attr_slot(&attrs[j]) {
                proof {
                    assert(spec_table_attr_slot(attrs@[i as int]) == spec_table_attr_slot(
                        attrs@[j as int],
                    ));
                }
                return true;
            }
            j = j + 1;
        }
        i = i + 1;
    }
    false
}

impl Table {
    /// Folds a whole table declaration into the validated model.
    ///
    /// Exactly one of these holds, checked in this order: some option is
    /// declared twice (`DuplicateAttribute`); `id` is absent
    /// (`MissingAttribute`); the identifier names no field
    /// (`UnknownIdentifierField`); a default-generated field occurs in a
    /// table that is not insertable (`DefaultWithoutInsertable`);
    /// `table` is absent (`MissingAttribute`); or the declaration is
    /// valid and folds into its model.
    pub fn try_from(decl: &TableDecl, b: Backend) -> (r: Result<Table, SchemaError>)
        ensures
            r is Ok <==> spec_table_ok(*decl),
            r matches Ok(t) ==> t@ == spec_parse_table(*decl, b) && t@.wf(),
            (r matches Err(e) && e is DuplicateAttribute) <==> spec_table_any_dup(*decl),
            (r matches Err(e) && e matches SchemaError::MissingAttribute(a) && a@ == "id"@) <==> (
            !spec_table_any_dup(*decl) && spec_first_id(decl.attrs@) is None),
            (r matches Err(e) && e is UnknownIdentifierField) <==> (!spec_table_any_dup(*decl)
                && spec_first_id(decl.attrs@) is Some && !spec_table_id_ok(*decl)),
            (r matches Err(e) && e is DefaultWithoutInsertable) <==> (!spec_table_any_dup(*decl)
                && spec_table_id_ok(*decl) && !spec_table_default_ok(*decl)),
            (r matches Err(e) && e matches SchemaError::MissingAttribute(a) && a@ == "table"@)
                <==> (!spec_table_any_dup(*decl) && spec_table_id_ok(*decl)
                && spec_table_default_ok(*decl) && spec_first_table(decl.attrs@) is None),
    {
        proof {
            reveal_strlit("id");
            reveal_strlit("table");
        }
        // Fold every field first; a duplicate option on any field stops
        // the whole declaration.
        let nf = decl.fields.len();
        let mut fields: Vec<TableField> = Vec::new();
        let mut i: usize = 0;
        while i < nf
            invariant
                i <= nf,
                nf == decl.fields@.len(),
                fields@.len() == i,
                forall|j: int|
                    0 <= j < i ==> !spec_field_dup((#[trigger] decl.fields@[j]).attrs@),
                forall|j: int|
                    0 <= j < i ==> (#[trigger] fields@[j])@ == spec_parse_fields(decl.fields@, b)[j],
            decreases nf - i,
        {
            match TableField::try_from(&decl.fields[i], b) {
                Ok(f) => {
                    fields.push(f);
                },
                Err(e) => {
                    proof {
                        assert(spec_field_dup(decl.fields@[i as int].attrs@));
                        assert(spec_any_field_dup(decl.fields@));
                    }
                    return Err(e);
                },
            }
            i = i + 1;
        }
        proof {
            assert(!spec_any_field_dup(decl.fields@));
        }
        // Then the table-level options.
        if table_attrs_dup(&decl.attrs) {
            return Err(SchemaError::DuplicateAttribute);
        }
        let mut table_name: Option<String> = None;
        let mut id_name: Option<String> = None;
        let mut insertable: Option<Insertable> = None;
        let mut deletable: bool = false;
        let na = decl.attrs.len();
        let mut i: usize = 0;
        while i < na
            invariant
                i <= na,
                na == decl.attrs@.len(),
                opt_str_view(table_name) == spec_first_table(decl.attrs@.take(i as int)),
                opt_str_view(id_name) == spec_first_id(decl.attrs@.take(i as int)),
                (match insertable {
                    Some(ins) => Some(ins@),
                    None => None,
                }) == spec_first_insertable(decl.attrs@.take(i as int), decl.ident@),
                deletable == spec_has_deletable(decl.attrs@.take(i as int)),
            decreases na - i,
        {
            proof {
                assert(decl.attrs@.take(i + 1).drop_last() =~= decl.attrs@.take(i as int));
                assert(decl.attrs@.take(i + 1).last() == decl.attrs@[i as int]);
            }
            match &decl.attrs[i] {
                TableAttr::Table(t) => {
                    if table_name.is_none() {
                        table_name = Some(t.clone());
                    }
                },
                TableAttr::Id(x) => {
                    if id_name.is_none() {
                        id_name = Some(x.clone());
                    }
                },
                TableAttr::Insertable(o) => {
                    if insertable.is_none() {
                        let ins: Insertable = match o {
                            Some(x) => x.clone(),
                            None => {
                                proof {
                                    reveal_strlit("Insert");
                                }
                                let mut d = "Insert".to_owned();
                                d.append(decl.ident.as_str());
                                let ins = Insertable { ident: d, attrs: Vec::new() };
                                proof {
                                    assert(ins@.attrs =~= Seq::<Seq<char>>::empty());
                                }
                                ins
                            },
                        };
                        insertable = Some(ins);
                    }
                },
                TableAttr::Deletable => {
                    deletable = true;
                },
            }
            i = i + 1;
        }
        proof {
            assert(decl.attrs@.take(na as int) =~= decl.attrs@);
        }
        // The identifier must be declared and must name a field.
        let id_name: String = match id_name {
            Some(x) => x,
            None => {
                let e = missing_attr("id");
                proof {
                    reveal_strlit("id");
                    reveal_strlit("table");
                    assert("id"@.len() == 2);
                    assert("table"@.len() == 5);
                    assert("id"@ != "table"@);
                }
                return Err(e);
            },
        };
        let id: usize = match find_field(&decl.fields, &id_name) {
            Some(i) => i,
            None => {
                return Err(SchemaError::UnknownIdentifierField);
            },
        };
        // A database-side default is unreachable without insert support.
        let mut has_default: bool = false;
        let mut i: usize = 0;
        while i < nf
            invariant
                i <= nf,
                nf == decl.fields@.len(),
                fields@.len() == nf,
                forall|j: int|
                    0 <= j < nf ==> (#[trigger] fields@[j])@ == spec_parse_fields(
                        decl.fields@,
                        b,
                    )[j],
                has_default ==> spec_any_field_default(decl.fields@),
                !has_default ==> forall|j: int|
                    0 <= j < i ==> !spec_has_default((#[trigger] decl.fields@[j]).attrs@),
            decreases nf - i,
        {
            proof {
                assert(fields@[i as int]@ == spec_parse_fields(decl.fields@, b)[i as int]);
            }
            if fields[i].default {
                proof {
                    assert(spec_has_default(decl.fields@[i as int].attrs@));
                    assert(spec_any_field_default(decl.fields@));
                }
                has_default = true;
            }
            i = i + 1;
        }
        proof {
            assert(!has_default ==> !spec_any_field_default(decl.fields@));
        }
        if has_default && insertable.is_none() {
            return Err(SchemaError::DefaultWithoutInsertable);
        }
        // The table's name is mandatory.
        let table_name: String = match table_name {
            Some(t) => t,
            None => {
                let e = missing_attr("table");
                proof {
                    reveal_strlit("id");
                    reveal_strlit("table");
                    assert("id"@.len() == 2);
                    assert("table"@.len() == 5);
                    assert("id"@ != "table"@);
                }
                return Err(e);
            },
        };
        let t = Table {
            ident: decl.ident.clone(),
            vis: decl.vis.clone(),
            table: table_name,
            id,
            fields,
            insertable,
            deletable,
        };
        proof {
            assert(t@.fields =~= spec_parse_fields(decl.fields@, b));
            assert(t@ =~= spec_parse_table(*decl, b));
            assert forall|j: int| 0 <= j < t@.fields.len() && #[trigger] t@.fields[j].default
                implies t@.insertable is Some by {
                assert(t@.fields[j] == spec_parse_fields(decl.fields@, b)[j]);
                assert(spec_has_default(decl.fields@[j].attrs@));
            }
        }
        Ok(t)
    }
}

} // verus!
