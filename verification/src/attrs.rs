//! Raw declarative annotations, as the schema compiler receives them,
//! and the build-time errors of turning them into a validated model.
//!
//! Every option is an unordered key/value declaration; each may be given
//! at most once per item. The parser in the `table` and `patch` modules
//! folds a sequence of these into a `Table` or `Patch` model.

use vstd::prelude::*;

verus! {

/// Build-time failure of schema compilation. All of these abort the
/// compilation of the declaration they occur in; none produces output.
#[derive(Debug, Clone, PartialEq, Eq)]
pub enum SchemaError {
    /// A recognized option was declared twice on the same item.
    DuplicateAttribute,
    /// A mandatory option is absent; carries the missing option's key.
    MissingAttribute(String),
    /// The declared identifier does not name a field of the table.
    UnknownIdentifierField,
    /// A field with a database-side default in a table that cannot be
    /// inserted into; the default value would be unreachable.
    DefaultWithoutInsertable,
}

/// Table-level option: opt into insertion, name the helper type that
/// carries the insertable fields, and carry the annotations forwarded
/// onto that helper type, each as one line of text.
#[derive(Debug)]
pub struct Insertable {
    pub ident: String,
    pub attrs: Vec<String>,
}

/// Mathematical model of an insert declaration.
#[verifier::ext_equal]
pub ghost struct InsertableV {
    pub ident: Seq<char>,
    pub attrs: Seq<Seq<char>>,
}

impl View for Insertable {
    type V = InsertableV;

    open spec fn view(&self) -> InsertableV {
        InsertableV { ident: self.ident@, attrs: self.attrs.deep_view() }
    }
}

impl Clone for Insertable {
    fn clone(&self) -> (r: Self)
        ensures
            r@ == self@,
    {
        let r = Insertable {
            ident: self.ident.clone(),
            attrs: crate::strutil::clone_string_vec(&self.attrs),
        };
        proof {
            assert(r@ =~= self@);
        }
        r
    }
}

/// A table-level declaration.
pub enum TableAttr {
    /// `table = <name>`: the table's name in the database.
    Table(String),
    /// `id = <field>`: which field is the row identifier.
    Id(String),
    /// `insertable [= <type name>]`: opt into insertion.
    Insertable(Option<Insertable>),
    /// `deletable`: opt into deletion.
    Deletable,
}

/// A per-field lookup declaration: the generated function's name and its
/// argument type, either of which may be left to a default.
#[derive(Debug)]
pub struct Getter {
    pub func: Option<String>,
    pub arg_ty: Option<String>,
}

/// Mathematical model of a lookup declaration.
#[verifier::ext_equal]
pub ghost struct GetterV {
    pub func: Option<Seq<char>>,
    pub arg_ty: Option<Seq<char>>,
}

impl View for Getter {
    type V = GetterV;

    open spec fn view(&self) -> GetterV {
        GetterV {
            func: match self.func {
                Some(f) => Some(f@),
                None => None,
            },
            arg_ty: match self.arg_ty {
                Some(t) => Some(t@),
                None => None,
            },
        }
    }
}

impl Clone for Getter {
    fn clone(&self) -> (r: Self)
        ensures
            r@ == self@,
    {
        Getter {
            func: match &self.func {
                Some(f) => Some(f.clone()),
                None => None,
            },
            arg_ty: match &self.arg_ty {
                Some(t) => Some(t.clone()),
                None => None,
            },
        }
    }
}

/// A field-level declaration.
pub enum TableFieldAttr {
    /// `column = <name>`: the column backing this field.
    Column(String),
    /// `custom_type`: decode through the declared semantic type.
    CustomType,
    /// `default`: the database generates this column's value.
    DefaultGenerated,
    /// `get_one [= <name>] [(<type>)]`: exactly-one-row lookup.
    GetOne(Getter),
    /// `get_optional [= <name>] [(<type>)]`: zero-or-one-row lookup.
    GetOptional(Getter),
    /// `get_many [= <name>] [(<type>)]`: zero-or-more-rows lookup.
    GetMany(Getter),
    /// `get_by_any [= <name>] [(<type>)]`: set-membership lookup.
    GetByAny(Getter),
    /// `set [= <name>]`: generate a single-field setter.
    Setter(Option<String>),
    /// `by_ref`: bind this field by reference.
    ByRef,
    /// Annotations forwarded onto the insert helper's field, each as one
    /// line of text. Unlike every other option this one may be declared
    /// repeatedly; each declaration appends its lines.
    InsertAttr(Vec<String>),
}

/// A patch-level declaration.
pub enum PatchAttr {
    /// `table_name = <name>`: the patched table's name in the database.
    TableName(String),
    /// `table = <path>`: the entity type the patch applies to.
    Table(String),
    /// `id = <column>`: the patched table's identifier column.
    Id(String),
}

/// A patch-field-level declaration.
pub enum PatchFieldAttr {
    /// `column = <name>`: the column backing this field.
    Column(String),
    /// `custom_type`: bind through the declared semantic type.
    CustomType,
    /// `by_ref`: bind this field by reference.
    ByRef,
}

/// A field declaration as the schema compiler receives it: the field's
/// name, its declared type as text, and its options.
pub struct FieldDecl {
    pub name: String,
    pub ty: String,
    pub attrs: Vec<TableFieldAttr>,
}

/// A whole table declaration: the entity type's name, the table-level
/// options, and the fields in declaration order.
pub struct TableDecl {
    pub ident: String,
    /// The entity type's visibility, as text.
    pub vis: String,
    pub attrs: Vec<TableAttr>,
    pub fields: Vec<FieldDecl>,
}

/// A patch field declaration.
pub struct PatchFieldDecl {
    pub name: String,
    pub ty: String,
    pub attrs: Vec<PatchFieldAttr>,
}

/// A whole patch declaration.
pub struct PatchDecl {
    pub ident: String,
    pub attrs: Vec<PatchAttr>,
    pub fields: Vec<PatchFieldDecl>,
}

/// The view of an optional string, as an optional character sequence.
pub open spec fn opt_str_view(o: Option<String>) -> Option<Seq<char>> {
    match o {
        Some(s) => Some(s@),
        None => None,
    }
}

/// Records `v` as the value of an option declared at most once: the new
/// value replaces whatever the slot held, and a slot that already held
/// one is reported as `DuplicateAttribute`.
pub fn set_once<T>(opt: &mut Option<T>, v: T) -> (r: Result<(), SchemaError>)
    ensures
        r is Ok <==> (*old(opt)) is None,
        *final(opt) == Some(v),
        r is Err ==> r == Err::<(), SchemaError>(SchemaError::DuplicateAttribute),
{
    let was_set = opt.is_some();
    *opt = Some(v);
    if was_set {
        Err(SchemaError::DuplicateAttribute)
    } else {
        Ok(())
    }
}

/// The error for a mandatory option that was not declared.
pub fn missing_attr(attr: &str) -> (r: SchemaError)
    ensures
        r matches SchemaError::MissingAttribute(a) && a@ == attr@,
{
    SchemaError::MissingAttribute(attr.to_owned())
}

} // verus!
