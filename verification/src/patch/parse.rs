//! Folds raw patch declarations into the validated model.

use vstd::prelude::*;

use crate::attrs::{
    missing_attr, opt_str_view, PatchAttr, PatchDecl, PatchFieldAttr, PatchFieldDecl, SchemaError,
};
use crate::patch::{Patch, PatchField, PatchFieldV, PatchV};

verus! {

/// Which option a patch-field-level declaration sets.
pub open spec fn spec_pfield_attr_slot(a: PatchFieldAttr) -> int {
    match a {
        PatchFieldAttr::Column(_) => 0,
        PatchFieldAttr::CustomType => 1,
        PatchFieldAttr::ByRef => 2,
    }
}

/// Whether some option is declared twice in `s`.
pub open spec fn spec_pfield_dup(s: Seq<PatchFieldAttr>) -> bool {
    exists|p: int, q: int|
        0 <= p < q < s.len() && #[trigger] spec_pfield_attr_slot(s[p])
            == #[trigger] spec_pfield_attr_slot(s[q])
}

/// The value of the first `column` declaration in `s`, if any.
pub open spec fn spec_pfield_first_column(s: Seq<PatchFieldAttr>) -> Option<Seq<char>>
    decreases s.len(),
{
    if s.len() == 0 {
        None
    } else if spec_pfield_first_column(s.drop_last()) is Some {
        spec_pfield_first_column(s.drop_last())
    } else {
        match s.last() {
            PatchFieldAttr::Column(c) => Some(c@),
            _ => None,
        }
    }
}

/// Whether `custom_type` is declared in `s`.
pub open spec fn spec_pfield_has_custom(s: Seq<PatchFieldAttr>) -> bool
    decreases s.len(),
{
    if s.len() == 0 {
        false
    } else {
        spec_pfield_has_custom(s.drop_last()) || s.last() is CustomType
    }
}

/// Whether `by_ref` is declared in `s`.
pub open spec fn spec_pfield_has_by_ref(s: Seq<PatchFieldAttr>) -> bool
    decreases s.len(),
{
    if s.len() == 0 {
        false
    } else {
        spec_pfield_has_by_ref(s.drop_last()) || s.last() is ByRef
    }
}

/// The field model a duplicate-free patch field declaration folds into.
pub open spec fn spec_parse_pfield(name: Seq<char>, ty: Seq<char>, attrs: Seq<PatchFieldAttr>) -> PatchFieldV {
    PatchFieldV {
        ident: name,
        column: match spec_pfield_first_column(attrs) {
            Some(c) => c,
            None => name,
        },
        ty: ty,
        custom_type: spec_pfield_has_custom(attrs),
        by_ref: spec_pfield_has_by_ref(attrs),
    }
}

fn pfield_attr_slot(a: &PatchFieldAttr) -> (r: u32)
    ensures
        r as int == spec_pfield_attr_slot(*a),
{
    match a {
        PatchFieldAttr::Column(_) => 0,
        PatchFieldAttr::CustomType => 1,
        PatchFieldAttr::ByRef => 2,
    }
}

fn pfield_attrs_dup(attrs: &Vec<PatchFieldAttr>) -> (r: bool)
    ensures
        r == spec_pfield_dup(attrs@),
{
    let n = attrs.len();
    let mut i: usize = 0;
    while i < n
        invariant
            i <= n,
            n == attrs@.len(),
            forall|p: int, q: int|
                0 <= p < q < n && p < i ==> #[trigger] spec_pfield_attr_slot(attrs@[p])
                    != #[trigger] spec_pfield_attr_slot(attrs@[q]),
        decreases n - i,
    {
        let si = pfield_attr_slot(&attrs[i]);
        let mut j: usize = i + 1;
        while j < n
            invariant
                i < j <= n,
                n == attrs@.len(),
                si as int == spec_pfield_attr_slot(attrs@[i as int]),
                forall|q: int|
                    i < q < j ==> #[trigger] spec_pfield_attr_slot(attrs@[q]) != si as int,
            decreases n - j,
        {
            if si == pfield_attr_slot(&attrs[j]) {
                proof {
                    assert(spec_pfield_attr_slot(attrs@[i as int]) == spec_pfield_attr_slot(
                        attrs@[j as int],
                    ));
                }
                return true;
            }
            j = j + 1;
        }
        i = i + 1;
    }
    false
}

impl PatchField {
    /// Folds one patch field declaration into its model. Fails, with
    /// `DuplicateAttribute`, exactly when an option is declared twice.
    pub fn try_from(decl: &PatchFieldDecl) -> (r: Result<PatchField, SchemaError>)
        ensures
            r is Ok <==> !spec_pfield_dup(decl.attrs@),
            r matches Ok(f) ==> f@ == spec_parse_pfield(decl.name@, decl.ty@, decl.attrs@),
            r matches Err(e) ==> e == SchemaError::DuplicateAttribute,
    {
        if pfield_attrs_dup(&decl.attrs) {
            return Err(SchemaError::DuplicateAttribute);
        }
        let mut column: Option<String> = None;
        let mut custom_type: bool = false;
        let mut by_ref: bool = false;
        let n = decl.attrs.len();
        let mut i: usize = 0;
        while i < n
            invariant
                i <= n,
                n == decl.attrs@.len(),
                opt_str_view(column) == spec_pfield_first_column(decl.attrs@.take(i as int)),
                custom_type == spec_pfield_has_custom(decl.attrs@.take(i as int)),
                by_ref == spec_pfield_has_by_ref(decl.attrs@.take(i as int)),
            decreases n - i,
        {
            proof {
                assert(decl.attrs@.take(i + 1).drop_last() =~= decl.attrs@.take(i as int));
                assert(decl.attrs@.take(i + 1).last() == decl.attrs@[i as int]);
            }
            match &decl.attrs[i] {
                PatchFieldAttr::Column(c) => {
                    if column.is_none() {
                        column = Some(c.clone());
                    }
                },
                PatchFieldAttr::CustomType => {
                    custom_type = true;
                },
                PatchFieldAttr::ByRef => {
                    by_ref = true;
                },
            }
            i = i + 1;
        }
        proof {
            assert(decl.attrs@.take(n as int) =~= decl.attrs@);
        }
        let f = PatchField {
            ident: decl.name.clone(),
            column: match column {
                Some(c) => c,
                None => decl.name.clone(),
            },
            ty: decl.ty.clone(),
            custom_type,
            by_ref,
        };
        proof {
            assert(f@ =~= spec_parse_pfield(decl.name@, decl.ty@, decl.attrs@));
        }
        Ok(f)
    }
}

/// Which option a patch-level declaration sets.
pub open spec fn spec_patch_attr_slot(a: PatchAttr) -> int {
    match a {
        PatchAttr::TableName(_) => 0,
        PatchAttr::Table(_) => 1,
        PatchAttr::Id(_) => 2,
    }
}

/// Whether some patch-level option is declared twice in `s`.
pub open spec fn spec_patch_dup(s: Seq<PatchAttr>) -> bool {
    exists|p: int, q: int|
        0 <= p < q < s.len() && #[trigger] spec_patch_attr_slot(s[p])
            == #[trigger] spec_patch_attr_slot(s[q])
}

/// The value of the first `table_name` declaration in `s`, if any.
pub open spec fn spec_first_table_name(s: Seq<PatchAttr>) -> Option<Seq<char>>
    decreases s.len(),
{
    if s.len() == 0 {
        None
    } else if spec_first_table_name(s.drop_last()) is Some {
        spec_first_table_name(s.drop_last())
    } else {
        match s.last() {
            PatchAttr::TableName(t) => Some(t@),
            _ => None,
        }
    }
}

/// The value of the first `table` declaration in `s`, if any.
pub open spec fn spec_first_table_path(s: Seq<PatchAttr>) -> Option<Seq<char>>
    decreases s.len(),
{
    if s.len() == 0 {
        None
    } else if spec_first_table_path(s.drop_last()) is Some {
        spec_first_table_path(s.drop_last())
    } else {
        match s.last() {
            PatchAttr::Table(t) => Some(t@),
            _ => None,
        }
    }
}

/// The value of the first `id` declaration in `s`, if any.
pub open spec fn spec_first_id_column(s: Seq<PatchAttr>) -> Option<Seq<char>>
    decreases s.len(),
{
    if s.len() == 0 {
        None
    } else if spec_first_id_column(s.drop_last()) is Some {
        spec_first_id_column(s.drop_last())
    } else {
        match s.last() {
            PatchAttr::Id(i) => Some(i@),
            _ => None,
        }
    }
}

fn patch_attr_slot(a: &PatchAttr) -> (r: u32)
    ensures
        r as int == spec_patch_attr_slot(*a),
{
    match a {
        PatchAttr::TableName(_) => 0,
        PatchAttr::Table(_) => 1,
        PatchAttr::Id(_) => 2,
    }
}

fn patch_attrs_dup(attrs: &Vec<PatchAttr>) -> (r: bool)
    ensures
        r == spec_patch_dup(attrs@),
{
    let n = attrs.len();
    let mut i: usize = 0;
    while i < n
        invariant
            i <= n,
            n == attrs@.len(),
            forall|p: int, q: int|
                0 <= p < q < n && p < i ==> #[trigger] spec_patch_attr_slot(attrs@[p])
                    != #[trigger] spec_patch_attr_slot(attrs@[q]),
        decreases n - i,
    {
        let si = patch_attr_slot(&attrs[i]);
        let mut j: usize = i + 1;
        while j < n
            invariant
                i < j <= n,
                n == attrs@.len(),
                si as int == spec_patch_attr_slot(attrs@[i as int]),
                forall|q: int|
                    i < q < j ==> #[trigger] spec_patch_attr_slot(attrs@[q]) != si as int,
            decreases n - j,
        {
            if si == patch_attr_slot(&attrs[j]) {
                proof {
                    assert(spec_patch_attr_slot(attrs@[i as int]) == spec_patch_attr_slot(
                        attrs@[j as int],
                    ));
                }
                return true;
            }
            j = j + 1;
        }
        i = i + 1;
    }
    false
}

/// Whether some patch field carries a duplicate option.
pub open spec fn spec_any_pfield_dup(fs: Seq<PatchFieldDecl>) -> bool {
    exists|i: int| 0 <= i < fs.len() && spec_pfield_dup(#[trigger] fs[i].attrs@)
}

/// The field models of a whole patch declaration.
pub open spec fn spec_parse_pfields(fs: Seq<PatchFieldDecl>) -> Seq<PatchFieldV> {
    fs.map_values(|fd: PatchFieldDecl| spec_parse_pfield(fd.name@, fd.ty@, fd.attrs@))
}

/// Whether some option of the patch declaration is a duplicate.
pub open spec fn spec_patch_any_dup(d: PatchDecl) -> bool {
    spec_any_pfield_dup(d.fields@) || spec_patch_dup(d.attrs@)
}

/// Whether the whole patch declaration validates.
pub open spec fn spec_patch_ok(d: PatchDecl) -> bool {
    &&& !spec_patch_any_dup(d)
    &&& spec_first_table_name(d.attrs@) is Some
    &&& spec_first_table_path(d.attrs@) is Some
    &&& spec_first_id_column(d.attrs@) is Some
}

/// The patch model that a valid declaration folds into.
pub open spec fn spec_parse_patch(d: PatchDecl) -> PatchV {
    PatchV {
        ident: d.ident@,
        table_name: match spec_first_table_name(d.attrs@) {
            Some(t) => t,
            None => Seq::empty(),
        },
        table: match spec_first_table_path(d.attrs@) {
            Some(t) => t,
            None => Seq::empty(),
        },
        id: match spec_first_id_column(d.attrs@) {
            Some(i) => i,
            None => Seq::empty(),
        },
        fields: spec_parse_pfields(d.fields@),
    }
}

impl Patch {
    /// Folds a whole patch declaration into the validated model.
    ///
    /// Exactly one of these holds, checked in this order: some option is
    /// declared twice (`DuplicateAttribute`); `table_name` is absent;
    /// `table` is absent; `id` is absent (each `MissingAttribute`); or
    /// the declaration is valid and folds into its model.
    pub fn try_from(decl: &PatchDecl) -> (r: Result<Patch, SchemaError>)
        ensures
            r is Ok <==> spec_patch_ok(*decl),
            r matches Ok(p) ==> p@ == spec_parse_patch(*decl),
            (r matches Err(e) && e is DuplicateAttribute) <==> spec_patch_any_dup(*decl),
            (r matches Err(e) && e matches SchemaError::MissingAttribute(a) && a@ == "table_name"@)
                <==> (!spec_patch_any_dup(*decl) && spec_first_table_name(decl.attrs@) is None),
            (r matches Err(e) && e matches SchemaError::MissingAttribute(a) && a@ == "table"@)
                <==> (!spec_patch_any_dup(*decl) && spec_first_table_name(decl.attrs@) is Some
                && spec_first_table_path(decl.attrs@) is None),
            (r matches Err(e) && e matches SchemaError::MissingAttribute(a) && a@ == "id"@) <==> (
            !spec_patch_any_dup(*decl) && spec_first_table_name(decl.attrs@) is Some
                && spec_first_table_path(decl.attrs@) is Some && spec_first_id_column(decl.attrs@)
                is None),
    {
        proof {
            reveal_strlit("table_name");
            reveal_strlit("table");
            reveal_strlit("id");
            assert("table_name"@.len() == 10);
            assert("table"@.len() == 5);
            assert("id"@.len() == 2);
        }
        let nf = decl.fields.len();
        let mut fields: Vec<PatchField> = Vec::new();
        let mut i: usize = 0;
        while i < nf
            invariant
                i <= nf,
                nf == decl.fields@.len(),
                fields@.len() == i,
                forall|j: int|
                    0 <= j < i ==> !spec_pfield_dup((#[trigger] decl.fields@[j]).attrs@),
                forall|j: int|
                    0 <= j < i ==> (#[trigger] fields@[j])@ == spec_parse_pfields(decl.fields@)[j],
            decreases nf - i,
        {
            match PatchField::try_from(&decl.fields[i]) {
                Ok(f) => {
                    fields.push(f);
                },
                Err(e) => {
                    proof {
                        assert(spec_pfield_dup(decl.fields@[i as int].attrs@));
                        assert(spec_any_pfield_dup(decl.fields@));
                    }
                    return Err(e);
                },
            }
            i = i + 1;
        }
        proof {
            assert(!spec_any_pfield_dup(decl.fields@));
        }
        if patch_attrs_dup(&decl.attrs) {
            return Err(SchemaError::DuplicateAttribute);
        }
        let mut table_name: Option<String> = None;
        let mut table_path: Option<String> = None;
        let mut id_column: Option<String> = None;
        let na = decl.attrs.len();
        let mut i: usize = 0;
        while i < na
            invariant
                i <= na,
                na == decl.attrs@.len(),
                opt_str_view(table_name) == spec_first_table_name(decl.attrs@.take(i as int)),
                opt_str_view(table_path) == spec_first_table_path(decl.attrs@.take(i as int)),
                opt_str_view(id_column) == spec_first_id_column(decl.attrs@.take(i as int)),
            decreases na - i,
        {
            proof {
                assert(decl.attrs@.take(i + 1).drop_last() =~= decl.attrs@.take(i as int));
                assert(decl.attrs@.take(i + 1).last() == decl.attrs@[i as int]);
            }
            match &decl.attrs[i] {
                PatchAttr::TableName(t) => {
                    if table_name.is_none() {
                        table_name = Some(t.clone());
                    }
                },
                PatchAttr::Table(t) => {
                    if table_path.is_none() {
                        table_path = Some(t.clone());
                    }
                },
                PatchAttr::Id(x) => {
                    if id_column.is_none() {
                        id_column = Some(x.clone());
                    }
                },
            }
            i = i + 1;
        }
        proof {
            assert(decl.attrs@.take(na as int) =~= decl.attrs@);
        }
        let table_name: String = match table_name {
            Some(t) => t,
            None => {
                let e = missing_attr("table_name");
                proof {
                    assert("table_name"@ != "table"@ && "table_name"@ != "id"@);
                }
                return Err(e);
            },
        };
        let table_path: String = match table_path {
            Some(t) => t,
            None => {
                let e = missing_attr("table");
                proof {
                    assert("table"@ != "table_name"@ && "table"@ != "id"@);
                }
                return Err(e);
            },
        };
        let id_column: String = match id_column {
            Some(x) => x,
            None => {
                let e = missing_attr("id");
                proof {
                    assert("id"@ != "table_name"@ && "id"@ != "table"@);
                }
                return Err(e);
            },
        };
        let p = Patch {
            ident: decl.ident.clone(),
            table_name,
            table: table_path,
            id: id_column,
            fields,
        };
        proof {
            assert(p@.fields =~= spec_parse_pfields(decl.fields@));
            assert(p@ =~= spec_parse_patch(*decl));
        }
        Ok(p)
    }
}

} // verus!
