//! The attribute parser and the SQL emitters, exercised on a concrete
//! table: parsing, validation errors, and the exact emitted statements
//! of both dialects.

use ormx::attrs::{
    missing_attr, set_once, FieldDecl, Getter, PatchAttr, PatchDecl, PatchFieldAttr,
    PatchFieldDecl, SchemaError, TableAttr, TableDecl, TableFieldAttr,
};
use ormx::backend::common::{
    get, get_one, getters, impl_delete, impl_patch, impl_table, insert_struct, setters,
    stream_all, stream_all_paginated, update, GetterKind,
};
use ormx::backend::mysql::MySqlInsert;
use ormx::backend::{is_reserved, Backend, MySqlBackend, MySqlBindings, PgBackend, PgBindings};
use ormx::patch::Patch;
use ormx::table::{Table, TableField};

fn users_decl() -> TableDecl {
    TableDecl {
        ident: "User".to_string(),
        vis: "pub".to_string(),
        attrs: vec![
            TableAttr::Table("users".to_string()),
            TableAttr::Id("user_id".to_string()),
            TableAttr::Insertable(None),
            TableAttr::Deletable,
        ],
        fields: vec![
            FieldDecl {
                name: "user_id".to_string(),
                ty: "i32".to_string(),
                attrs: vec![
                    TableFieldAttr::Column("id".to_string()),
                    TableFieldAttr::DefaultGenerated,
                    TableFieldAttr::GetOne(Getter {
                        func: Some("get_by_user_id".to_string()),
                        arg_ty: None,
                    }),
                ],
            },
            FieldDecl {
                name: "first_name".to_string(),
                ty: "String".to_string(),
                attrs: vec![],
            },
            FieldDecl {
                name: "last_name".to_string(),
                ty: "String".to_string(),
                attrs: vec![],
            },
            FieldDecl {
                name: "email".to_string(),
                ty: "String".to_string(),
                attrs: vec![TableFieldAttr::GetOptional(Getter {
                    func: None,
                    arg_ty: Some("&str".to_string()),
                })],
            },
            FieldDecl {
                name: "role".to_string(),
                ty: "Role".to_string(),
                attrs: vec![TableFieldAttr::CustomType],
            },
            FieldDecl {
                name: "last_login".to_string(),
                ty: "Option<NaiveDateTime>".to_string(),
                attrs: vec![TableFieldAttr::DefaultGenerated, TableFieldAttr::Setter(None)],
            },
        ],
    }
}

fn users(b: Backend) -> Table {
    Table::try_from(&users_decl(), b).expect("users table must validate")
}

const MYSQL_COLS: &str =
    "id AS user_id, first_name, last_name, email, role AS `role: _`, last_login";
const PG_COLS: &str =
    "id AS user_id, first_name, last_name, email, role AS \"role: _\", last_login";

#[test]
fn parses_users_table() {
    let t = users(Backend::MySql);
    assert_eq!(t.ident, "User");
    assert_eq!(t.table, "users");
    assert_eq!(t.id, 0);
    assert_eq!(t.fields.len(), 6);
    assert_eq!(t.fields[0].column_name, "id");
    assert!(t.fields[0].default);
    assert_eq!(t.fields[1].column_name, "first_name");
    assert!(t.fields[4].custom_type);
    assert_eq!(t.fields[5].set.as_deref(), Some("set_last_login"));
    assert_eq!(t.insertable.as_ref().map(|i| i.ident.as_str()), Some("InsertUser"));
    assert!(t.deletable);
}

#[test]
fn insertable_names_the_helper_type() {
    let mut decl = users_decl();
    decl.attrs[2] = TableAttr::Insertable(Some(ormx::attrs::Insertable {
        ident: "NewUser".to_string(),
        attrs: vec!["#[serde(default)]".to_string()],
    }));
    let t = Table::try_from(&decl, Backend::MySql).unwrap();
    let s = insert_struct(&t).unwrap();
    assert_eq!(t.insertable.unwrap().ident, "NewUser");
    assert_eq!(s.ident, "NewUser");
    assert_eq!(s.attrs, vec!["#[serde(default)]"]);
    assert_eq!(s.fields, vec![1, 2, 3, 4]);
}

#[test]
fn insert_helper_carries_field_annotations() {
    let mut decl = users_decl();
    assert_eq!(decl.vis, "pub");
    // Forwarded annotations may be declared repeatedly; each
    // declaration appends, and none counts as a duplicate.
    decl.fields[1].attrs.push(TableFieldAttr::InsertAttr(vec![
        "#[serde(rename = \"first\")]".to_string(),
    ]));
    decl.fields[1].attrs.push(TableFieldAttr::InsertAttr(vec![
        "#[serde(default)]".to_string(),
    ]));
    let t = Table::try_from(&decl, Backend::MySql).unwrap();
    assert_eq!(t.vis, "pub");
    assert_eq!(
        t.fields[1].insert_attrs,
        vec!["#[serde(rename = \"first\")]", "#[serde(default)]"]
    );
    assert!(t.fields[2].insert_attrs.is_empty());
    let s = insert_struct(&t).unwrap();
    assert!(s.attrs.is_empty());
}

#[test]
fn duplicate_attribute_is_rejected() {
    let mut decl = users_decl();
    decl.fields[1].attrs = vec![
        TableFieldAttr::Column("a".to_string()),
        TableFieldAttr::Column("b".to_string()),
    ];
    assert_eq!(
        Table::try_from(&decl, Backend::MySql).unwrap_err(),
        SchemaError::DuplicateAttribute
    );
    let mut decl = users_decl();
    decl.attrs.push(TableAttr::Table("again".to_string()));
    assert_eq!(
        Table::try_from(&decl, Backend::MySql).unwrap_err(),
        SchemaError::DuplicateAttribute
    );
}

#[test]
fn missing_id_is_rejected() {
    let mut decl = users_decl();
    decl.attrs.remove(1);
    assert_eq!(
        Table::try_from(&decl, Backend::MySql).unwrap_err(),
        SchemaError::MissingAttribute("id".to_string())
    );
}

#[test]
fn missing_table_is_rejected() {
    let mut decl = users_decl();
    decl.attrs.remove(0);
    assert_eq!(
        Table::try_from(&decl, Backend::MySql).unwrap_err(),
        SchemaError::MissingAttribute("table".to_string())
    );
}

#[test]
fn unknown_identifier_field_is_rejected() {
    let mut decl = users_decl();
    decl.attrs[1] = TableAttr::Id("no_such_field".to_string());
    assert_eq!(
        Table::try_from(&decl, Backend::MySql).unwrap_err(),
        SchemaError::UnknownIdentifierField
    );
}

#[test]
fn default_without_insertable_is_rejected() {
    let mut decl = users_decl();
    decl.attrs.remove(2);
    assert_eq!(
        Table::try_from(&decl, Backend::MySql).unwrap_err(),
        SchemaError::DefaultWithoutInsertable
    );
}

#[test]
fn set_once_reports_the_second_declaration() {
    let mut slot: Option<u32> = None;
    assert!(set_once(&mut slot, 1).is_ok());
    assert_eq!(slot, Some(1));
    // The second declaration is an error, but the new value still
    // replaces the recorded one.
    assert_eq!(set_once(&mut slot, 2), Err(SchemaError::DuplicateAttribute));
    assert_eq!(slot, Some(2));
    assert_eq!(missing_attr("table"), SchemaError::MissingAttribute("table".to_string()));
}

#[test]
fn reserved_identifiers_are_quoted() {
    assert!(is_reserved(Backend::Postgres, "user"));
    assert!(is_reserved(Backend::Postgres, "USER"));
    assert!(is_reserved(Backend::Postgres, "Returning"));
    assert!(!is_reserved(Backend::Postgres, "email"));
    assert!(!is_reserved(Backend::MySql, "user"));

    let decl = TableDecl {
        ident: "Account".to_string(),
        vis: "pub".to_string(),
        attrs: vec![
            TableAttr::Table("accounts".to_string()),
            TableAttr::Id("user".to_string()),
        ],
        fields: vec![FieldDecl {
            name: "user".to_string(),
            ty: "i64".to_string(),
            attrs: vec![],
        }],
    };
    let t = Table::try_from(&decl, Backend::Postgres).unwrap();
    assert!(t.fields[0].reserved_ident);
    assert_eq!(t.fields[0].column(Backend::Postgres), "\"user\"");
    assert_eq!(t.fields[0].fmt_for_select(Backend::Postgres), "\"user\"");
    let t = Table::try_from(&decl, Backend::MySql).unwrap();
    assert!(!t.fields[0].reserved_ident);
    assert_eq!(t.fields[0].column(Backend::MySql), "user");

    let t = Table::try_from(&decl, Backend::Postgres).unwrap();
    let op = get(&t, Backend::Postgres);
    assert_eq!(op.sql, "SELECT \"user\" FROM accounts WHERE \"user\" = $1");
}

#[test]
fn bindings_follow_the_dialect() {
    let mut m = MySqlBindings::default();
    assert_eq!(m.next(), "?");
    assert_eq!(m.next(), "?");
    let mut p = PgBindings::default();
    assert_eq!(p.next(), "$1");
    assert_eq!(p.next(), "$2");
    assert_eq!(p.next(), "$3");
    for _ in 0..6 {
        p.next();
    }
    assert_eq!(p.next(), "$10");
    assert_eq!(MySqlBackend::quote(), '`');
    assert_eq!(PgBackend::quote(), '"');
}

#[test]
fn column_list_is_shared_and_aliased() {
    let t = users(Backend::MySql);
    assert_eq!(t.select_column_list(Backend::MySql), MYSQL_COLS);
    let t = users(Backend::Postgres);
    assert_eq!(t.select_column_list(Backend::Postgres), PG_COLS);
    assert_eq!(t.fields_except_id(), vec![1, 2, 3, 4, 5]);
    assert_eq!(t.insertable_fields(), vec![1, 2, 3, 4]);
    assert_eq!(t.default_fields(), vec![0, 5]);
}

#[test]
fn fetch_statements_embed_the_shared_list() {
    let t = users(Backend::MySql);
    let b = Backend::MySql;
    let op = get(&t, b);
    assert_eq!(op.sql, format!("SELECT {} FROM users WHERE id = ?", MYSQL_COLS));
    assert_eq!(op.args, vec!["id"]);
    let op = stream_all(&t, b);
    assert_eq!(op.sql, format!("SELECT {} FROM users", MYSQL_COLS));
    assert!(op.args.is_empty());
    let op = stream_all_paginated(&t, b);
    assert_eq!(op.sql, format!("SELECT {} FROM users LIMIT ? OFFSET ?", MYSQL_COLS));
    assert_eq!(op.args, vec!["limit", "offset"]);
}

#[test]
fn update_binds_fields_then_identifier() {
    let t = users(Backend::MySql);
    let op = update(&t, Backend::MySql);
    assert_eq!(
        op.sql,
        "UPDATE users SET first_name = ?, last_name = ?, email = ?, role = ?, \
         last_login = ? WHERE id = ?"
    );
    assert_eq!(
        op.args,
        vec![
            "self.first_name",
            "self.last_name",
            "self.email",
            "self.role",
            "self.last_login",
            "self.user_id"
        ]
    );
    let op = update(&t, Backend::Postgres);
    assert_eq!(
        op.sql,
        "UPDATE users SET first_name = $1, last_name = $2, email = $3, role = $4, \
         last_login = $5 WHERE id = $6"
    );
}

#[test]
fn delete_is_emitted_only_when_asked_for() {
    let t = users(Backend::MySql);
    let op = impl_delete(&t, Backend::MySql).expect("deletable table");
    assert_eq!(op.sql, "DELETE FROM users WHERE id = ?");
    assert_eq!(op.args, vec!["id"]);
    let mut decl = users_decl();
    decl.attrs.pop();
    let t = Table::try_from(&decl, Backend::MySql).unwrap();
    assert!(impl_delete(&t, Backend::MySql).is_none());
}

#[test]
fn impl_table_bundles_the_core_interface() {
    let t = users(Backend::MySql);
    let ops = impl_table(&t, Backend::MySql);
    assert_eq!(ops.get.sql, format!("SELECT {} FROM users WHERE id = ?", MYSQL_COLS));
    assert_eq!(ops.stream_all.sql, format!("SELECT {} FROM users", MYSQL_COLS));
    assert_eq!(
        ops.stream_all_paginated.sql,
        format!("SELECT {} FROM users LIMIT ? OFFSET ?", MYSQL_COLS)
    );
    assert!(ops.update.sql.starts_with("UPDATE users SET "));
}

#[test]
fn setters_update_one_column_scoped_to_the_identifier() {
    let t = users(Backend::MySql);
    let ss = setters(&t, Backend::MySql);
    assert_eq!(ss.len(), 1);
    assert_eq!(ss[0].name, "set_last_login");
    assert_eq!(ss[0].sql, "UPDATE users SET last_login = ? WHERE id = ?");
    assert_eq!(ss[0].value, "value");
}

#[test]
fn setter_value_honors_custom_type_and_by_ref() {
    let decl = TableDecl {
        ident: "Thing".to_string(),
        vis: "pub".to_string(),
        attrs: vec![
            TableAttr::Table("things".to_string()),
            TableAttr::Id("id".to_string()),
        ],
        fields: vec![
            FieldDecl {
                name: "id".to_string(),
                ty: "i64".to_string(),
                attrs: vec![],
            },
            FieldDecl {
                name: "kind".to_string(),
                ty: "Kind".to_string(),
                attrs: vec![
                    TableFieldAttr::CustomType,
                    TableFieldAttr::ByRef,
                    TableFieldAttr::Setter(Some("rename_kind".to_string())),
                ],
            },
        ],
    };
    let t = Table::try_from(&decl, Backend::MySql).unwrap();
    let ss = setters(&t, Backend::MySql);
    assert_eq!(ss[0].name, "rename_kind");
    assert_eq!(ss[0].value, "&(value as Kind)");
    assert_eq!(t.fields[1].fmt_as_argument(), "&self.kind");
}

#[test]
fn getters_default_their_names_and_argument_types() {
    let t = users(Backend::MySql);
    let gs = getters(&t, Backend::MySql);
    assert_eq!(gs.len(), 2);
    assert_eq!(gs[0].name, "get_by_user_id");
    assert_eq!(gs[0].arg_ty, "&i32");
    assert_eq!(gs[0].kind, GetterKind::One);
    assert_eq!(gs[0].sql, format!("SELECT {} FROM users WHERE id = ?", MYSQL_COLS));
    assert_eq!(gs[1].name, "by_email");
    assert_eq!(gs[1].arg_ty, "&str");
    assert_eq!(gs[1].kind, GetterKind::Optional);
    assert_eq!(gs[1].sql, format!("SELECT {} FROM users WHERE email = ?", MYSQL_COLS));
    let wrapped = get_one("by_id".to_string(), "&u32".to_string(), "SQL".to_string());
    assert_eq!(wrapped.kind, GetterKind::One);
}

#[test]
fn pg_getters_add_set_membership_lookups() {
    let mut decl = users_decl();
    decl.fields[3]
        .attrs
        .push(TableFieldAttr::GetByAny(Getter { func: None, arg_ty: None }));
    let t = Table::try_from(&decl, Backend::Postgres).unwrap();
    let gs = PgBackend::impl_getters(&t);
    assert_eq!(gs.len(), 3);
    let any = &gs[2];
    assert_eq!(any.name, "get_by_any_email");
    assert_eq!(any.arg_ty, "&[String]");
    assert_eq!(any.kind, GetterKind::Many);
    assert_eq!(
        any.sql,
        format!("SELECT {} FROM users WHERE email = ANY($1)", PG_COLS)
    );
}

#[test]
fn mysql_insert_runs_in_three_steps() {
    let t = users(Backend::MySql);
    let plan: MySqlInsert = MySqlBackend::impl_insert(&t).expect("insertable table");
    assert_eq!(
        plan.insert.sql,
        "INSERT INTO users (first_name, last_name, email, role) VALUES (?, ?, ?, ?)"
    );
    assert_eq!(
        plan.insert.args,
        vec!["self.first_name", "self.last_name", "self.email", "self.role"]
    );
    assert_eq!(plan.query_id.as_deref(), Some("SELECT LAST_INSERT_ID() AS id"));
    let post = plan.query_default.expect("generated column besides the id");
    assert_eq!(post.sql, "SELECT last_login FROM users WHERE id = ?");
    assert_eq!(post.args, vec!["_id"]);
}

#[test]
fn mysql_insert_uses_known_identifier_when_not_generated() {
    let mut decl = users_decl();
    decl.fields[0].attrs.remove(1);
    let t = Table::try_from(&decl, Backend::MySql).unwrap();
    let plan = MySqlBackend::impl_insert(&t).unwrap();
    assert!(plan.query_id.is_none());
    assert_eq!(
        plan.insert.sql,
        "INSERT INTO users (id, first_name, last_name, email, role) \
         VALUES (?, ?, ?, ?, ?)"
    );
}

#[test]
fn pg_insert_returns_generated_columns_in_one_round_trip() {
    let t = users(Backend::Postgres);
    let plan = PgBackend::impl_insert(&t).expect("insertable table");
    assert_eq!(
        plan.sql,
        "INSERT INTO users (first_name, last_name, email, role) \
         VALUES ($1, $2, $3, $4) RETURNING id AS user_id, last_login"
    );
    assert_eq!(
        plan.args,
        vec!["self.first_name", "self.last_name", "self.email", "self.role"]
    );
    assert!(plan.fetch_one);
}

#[test]
fn pg_insert_without_generated_columns_is_plain() {
    let decl = TableDecl {
        ident: "Pair".to_string(),
        vis: "pub".to_string(),
        attrs: vec![
            TableAttr::Table("pairs".to_string()),
            TableAttr::Id("id".to_string()),
            TableAttr::Insertable(None),
        ],
        fields: vec![
            FieldDecl {
                name: "id".to_string(),
                ty: "i64".to_string(),
                attrs: vec![],
            },
            FieldDecl {
                name: "name".to_string(),
                ty: "String".to_string(),
                attrs: vec![],
            },
        ],
    };
    let t = Table::try_from(&decl, Backend::Postgres).unwrap();
    let plan = PgBackend::impl_insert(&t).unwrap();
    assert_eq!(plan.sql, "INSERT INTO pairs (id, name) VALUES ($1, $2)");
    assert!(!plan.fetch_one);
}

fn name_patch_decl() -> PatchDecl {
    PatchDecl {
        ident: "UpdateName".to_string(),
        attrs: vec![
            PatchAttr::TableName("users".to_string()),
            PatchAttr::Table("crate::User".to_string()),
            PatchAttr::Id("id".to_string()),
        ],
        fields: vec![
            PatchFieldDecl {
                name: "first_name".to_string(),
                ty: "String".to_string(),
                attrs: vec![],
            },
            PatchFieldDecl {
                name: "last_name".to_string(),
                ty: "String".to_string(),
                attrs: vec![PatchFieldAttr::ByRef],
            },
        ],
    }
}

#[test]
fn patch_parses_and_emits_exactly_its_fields() {
    let p = Patch::try_from(&name_patch_decl()).unwrap();
    assert_eq!(p.ident, "UpdateName");
    assert_eq!(p.table, "crate::User");
    let op = impl_patch(&p, Backend::MySql);
    assert_eq!(op.sql, "UPDATE users SET first_name = ?, last_name = ? WHERE id = ?");
    assert_eq!(op.args, vec!["first_name", "&(last_name)", "id"]);
    let op = impl_patch(&p, Backend::Postgres);
    assert_eq!(op.sql, "UPDATE users SET first_name = $1, last_name = $2 WHERE id = $3");
}

#[test]
fn patch_declarations_are_validated() {
    let mut decl = name_patch_decl();
    decl.attrs.remove(0);
    assert_eq!(
        Patch::try_from(&decl).unwrap_err(),
        SchemaError::MissingAttribute("table_name".to_string())
    );
    let mut decl = name_patch_decl();
    decl.attrs.remove(1);
    assert_eq!(
        Patch::try_from(&decl).unwrap_err(),
        SchemaError::MissingAttribute("table".to_string())
    );
    let mut decl = name_patch_decl();
    decl.attrs.remove(2);
    assert_eq!(
        Patch::try_from(&decl).unwrap_err(),
        SchemaError::MissingAttribute("id".to_string())
    );
    let mut decl = name_patch_decl();
    decl.fields[0].attrs = vec![
        PatchFieldAttr::Column("a".to_string()),
        PatchFieldAttr::Column("b".to_string()),
    ];
    assert_eq!(Patch::try_from(&decl).unwrap_err(), SchemaError::DuplicateAttribute);
}

#[test]
fn getter_or_fallback_uses_field_defaults() {
    let t = users(Backend::MySql);
    let g = Getter { func: None, arg_ty: None };
    let (name, arg) = g.or_fallback(&t.fields[1]);
    assert_eq!(name, "by_first_name");
    assert_eq!(arg, "&String");
}

#[test]
fn field_argument_rendering() {
    let t = users(Backend::MySql);
    let f: &TableField = &t.fields[1];
    assert_eq!(f.fmt_as_argument(), "self.first_name");
}
