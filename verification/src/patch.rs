//! Validated in-memory model of a partial-update ("patch") declaration:
//! a strict subset of a table's columns, updated in one statement and
//! merged into the owning entity only after the write succeeds.

use vstd::prelude::*;

mod parse;

verus! {

/// One field of a patch.
#[derive(Debug)]
pub struct PatchField {
    /// The field's name in the patch type.
    pub ident: String,
    /// The column backing the field.
    pub column: String,
    /// The field's declared semantic type, as text.
    pub ty: String,
    /// Bind through the declared semantic type.
    pub custom_type: bool,
    /// Bind this field by reference.
    pub by_ref: bool,
}

/// Mathematical model of a patch field.
#[verifier::ext_equal]
pub ghost struct PatchFieldV {
    pub ident: Seq<char>,
    pub column: Seq<char>,
    pub ty: Seq<char>,
    pub custom_type: bool,
    pub by_ref: bool,
}

impl View for PatchField {
    type V = PatchFieldV;

    open spec fn view(&self) -> PatchFieldV {
        PatchFieldV {
            ident: self.ident@,
            column: self.column@,
            ty: self.ty@,
            custom_type: self.custom_type,
            by_ref: self.by_ref,
        }
    }
}

/// A validated patch model.
#[derive(Debug)]
pub struct Patch {
    /// The patch type's name.
    pub ident: String,
    /// The patched table's name in the database.
    pub table_name: String,
    /// The entity type the patch applies to, as a path in text.
    pub table: String,
    /// The patched table's identifier column.
    pub id: String,
    /// The patched fields, in declaration order.
    pub fields: Vec<PatchField>,
}

/// Mathematical model of a patch.
#[verifier::ext_equal]
pub ghost struct PatchV {
    pub ident: Seq<char>,
    pub table_name: Seq<char>,
    pub table: Seq<char>,
    pub id: Seq<char>,
    pub fields: Seq<PatchFieldV>,
}

impl View for Patch {
    type V = PatchV;

    open spec fn view(&self) -> PatchV {
        PatchV {
            ident: self.ident@,
            table_name: self.table_name@,
            table: self.table@,
            id: self.id@,
            fields: self.fields@.map_values(|f: PatchField| f@),
        }
    }
}

/// The expression handing a patch field's value to the statement.
pub open spec fn spec_patch_fmt_as_argument(f: PatchFieldV) -> Seq<char> {
    if f.by_ref {
        "&("@ + f.ident + ")"@
    } else {
        f.ident
    }
}

impl PatchField {
    /// The expression handing this field's value to the statement.
    pub fn fmt_as_argument(&self) -> (r: String)
        ensures
            r@ == spec_patch_fmt_as_argument(self@),
    {
        if self.by_ref {
            proof {
                reveal_strlit("&(");
                reveal_strlit(")");
            }
            let mut r = "&(".to_owned();
            r.append(self.ident.as_str());
            r.append(")");
            proof {
                assert(r@ =~= spec_patch_fmt_as_argument(self@));
            }
            r
        } else {
            self.ident.clone()
        }
    }
}

} // verus!
